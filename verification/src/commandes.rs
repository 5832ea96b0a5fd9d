use vstd::prelude::*;

use crate::constantes;
use crate::depot::DepotMessages;
use crate::erreurs::ErreurDomaine;
use crate::messages_bus::{CleChiffree, DataDechiffrage};
use crate::structures_messages::{dupliquer_option_chaine, MessageDb, ProfilUsagerMessages};

verus! {

// ---------------------------------------------------------------------------
// The decrypted command and the values exchanged with the collaborators
// ---------------------------------------------------------------------------

/// Per-file encryption metadata as the decrypted post command carries
/// it.
#[derive(Debug, Clone)]
pub struct MessageFichierV1 {
    pub fuuid: String,
    pub taille_chiffre: i64,
    pub cle_id: String,
    pub format: String,
    pub nonce: Option<String>,
    pub verification: Option<String>,
}

/// The plaintext post command, obtained by the one-time inbound
/// decryption: body, recipients by username, optional reply reference,
/// origin timestamp and origin note, and the attachment metadata.
#[derive(Debug, Clone)]
pub struct MessagePostV1 {
    pub contenu: String,
    pub destinataires: Vec<String>,
    pub reply_to: Option<String>,
    pub date_post: Option<i64>,
    pub origine: Option<String>,
    pub fichiers: Option<Vec<MessageFichierV1>>,
}

/// Reply of the post command.
#[derive(Debug, Clone, PartialEq, Eq)]
pub struct ReponseCommandePoster {
    pub ok: bool,
    pub code: Option<usize>,
    pub err: Option<String>,
}

/// A 32-byte symmetric secret, held only transiently in memory for the
/// duration of a re-encryption.
#[derive(Debug, Clone, Copy)]
pub struct CleSecrete(pub [u8; 32]);

/// Outcome of one blocking request to a remote collaborator: a reply,
/// no usable reply, or a transport failure within the timeout bound.
#[derive(Debug, Clone)]
pub enum ResultatRequeteDistante<T> {
    Valide(T),
    Aucune,
    Echec,
}

/// The custodian's answer when asked to decrypt the message key on this
/// domain's behalf.
#[derive(Debug, Clone)]
pub struct ReponseDechiffrageMessage {
    pub ok: bool,
    pub err: Option<String>,
    pub cle_secrete: Option<CleSecrete>,
}

/// One decrypted key of a batched custodian reply.
#[derive(Debug, Clone)]
pub struct CleSecreteRecue {
    pub cle_id: String,
    pub cle_secrete: CleSecrete,
}

/// The custodian's answer to a batched decrypt-by-id request.
#[derive(Debug, Clone)]
pub struct ReponseRequeteDechiffrageV2 {
    pub ok: bool,
    pub err: Option<String>,
    pub cles: Option<Vec<CleSecreteRecue>>,
}

/// The identity service's answer: each resolved username with its user
/// id.
#[derive(Debug, Clone)]
pub struct CompteUsager {
    pub nom_usager: String,
    pub user_id: String,
}

/// The identity service's reply to a batched username lookup.
#[derive(Debug, Clone)]
pub struct ReponseUsersMaitredescomptes {
    pub usagers: Vec<CompteUsager>,
}

/// A freshly generated domain-scoped key: its id, its secret, and the
/// wrapped copies and signature to register with the custodian.
#[derive(Debug, Clone)]
pub struct CleGeneree {
    pub cle_id: String,
    pub cle: CleSecrete,
    pub cles: Vec<CleChiffree>,
    pub signature: String,
}

/// The registration command sent to the custodian for a fresh key.
#[derive(Debug, Clone)]
pub struct CommandeAjouterCleDomaine {
    pub cles: Vec<CleChiffree>,
    pub signature: String,
}

/// The custodian's acknowledgement of a registration.
#[derive(Debug, Clone)]
pub struct ReponseCommande {
    pub ok: Option<bool>,
    pub err: Option<String>,
}

/// What the cipher hands back for one re-encrypted payload.
#[derive(Debug, Clone)]
pub struct ChiffrageSortie {
    pub data_chiffre: String,
    pub format: String,
    pub nonce: Option<String>,
    pub verification: Option<String>,
}

/// One per-recipient encryption key, resolved or freshly provisioned.
#[derive(Debug, Clone)]
pub struct CleChiffrage {
    pub cle_id: String,
    pub cle: CleSecrete,
}

/// The collaborators the pipeline calls out to: the bus with the key
/// custodian and the identity service behind it, the cryptographic
/// primitives, the transaction id source and the clock. Nothing is
/// assumed of any of these calls: every contract of the pipeline holds
/// for every answer they may give.
pub trait Middleware {
    /// The fingerprint of this node's own certificate.
    fn get_fingerprint(&mut self) -> String;

    /// Unwraps the message key addressed to this node's certificate.
    fn dechiffrer_cle_locale(&mut self, cle_chiffree: &String) -> Result<CleSecrete, ErreurDomaine>;

    /// Asks the custodian to decrypt the message key on this domain's
    /// behalf; blocking, bounded by the five second timeout.
    fn transmettre_requete_dechiffrage_message(&mut self, dechiffrage: &DataDechiffrage) -> ResultatRequeteDistante<ReponseDechiffrageMessage>;

    /// Decrypts the inbound envelope with the resolved message key.
    fn dechiffrer_message(&mut self, cle: &CleSecrete, buffer: &Vec<u8>) -> Result<MessagePostV1, ErreurDomaine>;

    /// Asks the custodian for one profile key by id; blocking, bounded
    /// by the three second timeout.
    fn transmettre_requete_cle_profil(&mut self, cle_id: &String) -> ResultatRequeteDistante<ReponseRequeteDechiffrageV2>;

    /// Asks the identity service for the user ids of the unresolved
    /// usernames; blocking, bounded by the three second timeout.
    fn transmettre_requete_comptes(&mut self, noms_usagers: &Vec<String>) -> Option<ReponseUsersMaitredescomptes>;

    /// Generates a fresh domain-scoped key with the CA-rooted
    /// primitive.
    fn generer_cle(&mut self) -> Result<CleGeneree, ErreurDomaine>;

    /// Registers a fresh key with the custodian; blocking, bounded by
    /// the five second timeout.
    fn transmettre_commande_cle(&mut self, commande: &CommandeAjouterCleDomaine) -> Option<ReponseCommande>;

    /// Re-encrypts the plaintext command with one recipient's secret,
    /// using the authenticated stream cipher.
    fn chiffrer_message(&mut self, cle: &CleSecrete, message: &MessagePostV1) -> Result<ChiffrageSortie, ErreurDomaine>;

    /// A fresh transaction id.
    fn nouvelle_transaction_id(&mut self) -> String;

    /// The server clock, in epoch seconds.
    fn maintenant(&mut self) -> i64;
}

// ---------------------------------------------------------------------------
// Recipient resolution and key provisioning
// ---------------------------------------------------------------------------

/// Some profile of the list answers to this username.
pub open spec fn nom_couvert(profils: Seq<ProfilUsagerMessages>, nom: Seq<char>) -> bool {
    exists|i: int| 0 <= i < profils.len() && crate::depot::opt_a_vue(profils[i].nom_usager, nom)
}

/// Whether some profile of the list answers to this username.
fn nom_couvert_exec(profils: &Vec<ProfilUsagerMessages>, nom: &String) -> (b: bool)
    ensures
        b == nom_couvert(profils@, nom@),
{
    let n = profils.len();
    let mut i: usize = 0;
    while i < n
        invariant
            n == profils@.len(),
            0 <= i <= n,
            forall|k: int| 0 <= k < i ==> !crate::depot::opt_a_vue(#[trigger] profils@[k].nom_usager, nom@),
        decreases n - i,
    {
        let couvert = match &profils[i].nom_usager {
            Some(nu) => nu.eq(nom),
            None => false,
        };
        if couvert {
            return true;
        }
        i += 1;
    }
    false
}

/// Adds one username to the unresolved set when no profile answers to
/// it and it is not recorded yet.
fn collecter_manquant(manquants: &mut Vec<String>, nom: &String, profils: &Vec<ProfilUsagerMessages>)
    requires
        forall|k: int, l: int| 0 <= k < l < old(manquants)@.len()
            ==> old(manquants)@[k]@ != old(manquants)@[l]@,
    ensures
        forall|k: int| 0 <= k < old(manquants)@.len() ==> final(manquants)@[k] == old(manquants)@[k],
        old(manquants)@.len() <= final(manquants)@.len(),
        forall|k: int| old(manquants)@.len() <= k < final(manquants)@.len()
            ==> #[trigger] final(manquants)@[k]@ == nom@ && !nom_couvert(profils@, nom@),
        !nom_couvert(profils@, nom@) ==> crate::depot::contient_id(final(manquants)@, nom@),
        forall|k: int, l: int| 0 <= k < l < final(manquants)@.len()
            ==> final(manquants)@[k]@ != final(manquants)@[l]@,
{
    if !nom_couvert_exec(profils, nom) && !crate::depot::contient_id_exec(manquants, nom) {
        manquants.push(nom.clone());
        assert(manquants@[manquants@.len() - 1]@ == nom@);
    }
    assert(!nom_couvert(profils@, nom@) ==> crate::depot::contient_id(manquants@, nom@));
}

/// The requested usernames no profile of the list answers to, each
/// once, in request order.
pub fn calculer_manquants(noms_usagers: &Vec<String>, profils: &Vec<ProfilUsagerMessages>) -> (r: Vec<String>)
    ensures
        forall|k: int| 0 <= k < r@.len()
            ==> crate::depot::contient_id(noms_usagers@, #[trigger] r@[k]@)
                && !nom_couvert(profils@, r@[k]@),
        forall|c: int| 0 <= c < noms_usagers@.len()
            && !nom_couvert(profils@, #[trigger] noms_usagers@[c]@)
            ==> crate::depot::contient_id(r@, noms_usagers@[c]@),
        forall|k: int, l: int| 0 <= k < l < r@.len() ==> r@[k]@ != r@[l]@,
{
    let n = noms_usagers.len();
    let mut manquants: Vec<String> = Vec::new();
    let mut c: usize = 0;
    while c < n
        invariant
            n == noms_usagers@.len(),
            0 <= c <= n,
            forall|k: int| 0 <= k < manquants@.len()
                ==> crate::depot::contient_id(noms_usagers@, #[trigger] manquants@[k]@)
                    && !nom_couvert(profils@, manquants@[k]@),
            forall|c2: int| 0 <= c2 < c
                && !nom_couvert(profils@, #[trigger] noms_usagers@[c2]@)
                ==> crate::depot::contient_id(manquants@, noms_usagers@[c2]@),
            forall|k: int, l: int| 0 <= k < l < manquants@.len() ==> manquants@[k]@ != manquants@[l]@,
        decreases n - c,
    {
        let ghost avant = manquants@;
        collecter_manquant(&mut manquants, &noms_usagers[c], profils);
        proof {
            assert forall|k: int| 0 <= k < manquants@.len()
                implies crate::depot::contient_id(noms_usagers@, #[trigger] manquants@[k]@)
                    && !nom_couvert(profils@, manquants@[k]@) by {
                if k < avant.len() {
                    assert(manquants@[k] == avant[k]);
                } else {
                    assert(manquants@[k]@ == noms_usagers@[c as int]@);
                }
            }
            assert forall|c2: int| 0 <= c2 < c + 1
                && !nom_couvert(profils@, #[trigger] noms_usagers@[c2]@)
                implies crate::depot::contient_id(manquants@, noms_usagers@[c2]@) by {
                if c2 < c as int {
                    let k = choose|k: int| 0 <= k < avant.len() && avant[k]@ == noms_usagers@[c2]@;
                    assert(manquants@[k]@ == noms_usagers@[c2]@);
                }
            }
        }
        c += 1;
    }
    manquants
}

/// The position of a resolved key in the list, when it is there.
fn trouver_cle(cles: &Vec<CleChiffrage>, cle_id: &String) -> (r: Option<usize>)
    ensures
        match r {
            Some(i) => i < cles@.len() && cles@[i as int].cle_id@ == cle_id@,
            None => forall|k: int| 0 <= k < cles@.len() ==> (#[trigger] cles@[k]).cle_id@ != cle_id@,
        },
{
    let n = cles.len();
    let mut i: usize = 0;
    while i < n
        invariant
            n == cles@.len(),
            0 <= i <= n,
            forall|k: int| 0 <= k < i ==> (#[trigger] cles@[k]).cle_id@ != cle_id@,
        decreases n - i,
    {
        if cles[i].cle_id.eq(cle_id) {
            return Some(i);
        }
        i += 1;
    }
    None
}

/// The delivery set and the resolved keys pair up one to one, each
/// profile with the key its `cle_id` names.
pub open spec fn profils_et_cles_apparies(profils: Seq<ProfilUsagerMessages>, cles: Seq<CleChiffrage>) -> bool {
    &&& cles.len() == profils.len()
    &&& forall|k: int| 0 <= k < profils.len()
        ==> crate::depot::opt_a_vue(#[trigger] profils[k].cle_id, cles[k].cle_id@)
}

/// Resolves the recipients of a post: loads the profiles on file,
/// creates the missing ones through the identity service, resolves or
/// provisions one key per profile through the custodian, and returns
/// the delivery set with its keys and the usernames that stay unknown.
/// A profile whose key cannot be resolved is dropped from the delivery
/// set; the call itself fails only on the defensive pairing check,
/// which the construction rules out. The profile store only ever
/// grows, every delivery-set member has a row on file, and the
/// unknown-names list is exactly the requested names no row answers
/// to.
pub fn get_profils_usagers<M: Middleware>(
    middleware: &mut M,
    depot: &mut DepotMessages,
    noms_usagers: &Vec<String>,
    now: i64,
) -> (r: Result<(Vec<ProfilUsagerMessages>, Vec<CleChiffrage>, Vec<String>), ErreurDomaine>)
    requires
        old(depot).inv(),
    ensures
        final(depot).inv(),
        final(depot).reception@ == old(depot).reception@,
        final(depot).fichiers@ == old(depot).fichiers@,
        final(depot).journal@ == old(depot).journal@,
        // the profile store only grows, keeps every user id at its
        // place, and each row changes only by the username refresh or
        // the key recording
        crate::depot::usagers_evolues(old(depot).usagers@, final(depot).usagers@),
        r matches Ok((profils, cles, manquants)) ==> {
            &&& profils_et_cles_apparies(profils@, cles@)
            // delivery only to registered recipients: every profile of
            // the delivery set has a row on file under its user id
            &&& forall|k: int| 0 <= k < profils@.len()
                ==> crate::depot::contient_usager(
                    final(depot).usagers@, (#[trigger] profils@[k]).user_id@)
            // the unknown names are exactly the requested names no
            // profile on file answers to, each once
            &&& forall|k: int| 0 <= k < manquants@.len()
                ==> crate::depot::contient_id(noms_usagers@, #[trigger] manquants@[k]@)
                    && !nom_couvert(final(depot).usagers@, manquants@[k]@)
            &&& forall|c: int| 0 <= c < noms_usagers@.len()
                && !nom_couvert(final(depot).usagers@, #[trigger] noms_usagers@[c]@)
                ==> crate::depot::contient_id(manquants@, noms_usagers@[c]@)
            &&& forall|k: int, l: int| 0 <= k < l < manquants@.len()
                ==> manquants@[k]@ != manquants@[l]@
        },
        r is Ok,
{
    // Step 1: the profiles already on file for the requested usernames.
    let mut profils = depot.find_usagers_messages(noms_usagers);
    proof {
        crate::depot::lemma_profils_retenus_sur_fichier(depot.usagers@, noms_usagers@);
    }

    // Step 2: unresolved usernames go to the identity service in one
    // batch; each account it returns is upserted and joins the set.
    let manquants_initiaux = calculer_manquants(noms_usagers, &profils);
    if manquants_initiaux.len() > 0 {
        match middleware.transmettre_requete_comptes(&manquants_initiaux) {
            Some(reponse) => {
                let nc = reponse.usagers.len();
                let mut c: usize = 0;
                while c < nc
                    invariant
                        nc == reponse.usagers@.len(),
                        0 <= c <= nc,
                        depot.inv(),
                        depot.reception@ == old(depot).reception@,
                        depot.fichiers@ == old(depot).fichiers@,
                        depot.journal@ == old(depot).journal@,
                        crate::depot::usagers_evolues(old(depot).usagers@, depot.usagers@),
                        forall|k: int| 0 <= k < profils@.len()
                            ==> crate::depot::contient_usager(
                                depot.usagers@, (#[trigger] profils@[k]).user_id@),
                    decreases nc - c,
                {
                    let ghost usagers_avant = depot.usagers@;
                    let compte = &reponse.usagers[c];
                    let profil = depot.upsert_profil(&compte.user_id, &compte.nom_usager, now);
                    proof {
                        crate::depot::lemma_upsert_profil_evolue(
                            usagers_avant, compte.user_id, compte.nom_usager, now);
                        crate::depot::lemma_evolution_transitive(
                            old(depot).usagers@, usagers_avant, depot.usagers@);
                        crate::depot::lemma_upsert_profil_sur_fichier(
                            usagers_avant, compte.user_id, compte.nom_usager, now);
                        assert forall|k: int| 0 <= k < profils@.len()
                            implies crate::depot::contient_usager(
                                depot.usagers@, (#[trigger] profils@[k]).user_id@) by {
                            crate::depot::lemma_evolution_preserve_usager(
                                usagers_avant, depot.usagers@, profils@[k].user_id@);
                        }
                    }
                    profils.push(profil);
                    c += 1;
                }
            },
            None => {
                // no usable reply from the identity service; the
                // unresolved names simply stay unresolved
            },
        }
    }

    // Step 3: one key per profile, fetched by id or freshly
    // provisioned; a profile whose key cannot be resolved is dropped.
    let np = profils.len();
    let mut retenus: Vec<ProfilUsagerMessages> = Vec::new();
    let mut cles: Vec<CleChiffrage> = Vec::new();
    let mut i: usize = 0;
    while i < np
        invariant
            np == profils@.len(),
            0 <= i <= np,
            depot.inv(),
            depot.reception@ == old(depot).reception@,
            depot.fichiers@ == old(depot).fichiers@,
            depot.journal@ == old(depot).journal@,
            crate::depot::usagers_evolues(old(depot).usagers@, depot.usagers@),
            profils_et_cles_apparies(retenus@, cles@),
            forall|k: int| 0 <= k < profils@.len()
                ==> crate::depot::contient_usager(
                    depot.usagers@, (#[trigger] profils@[k]).user_id@),
            forall|k: int| 0 <= k < retenus@.len()
                ==> crate::depot::contient_usager(
                    depot.usagers@, (#[trigger] retenus@[k]).user_id@),
        decreases np - i,
    {
        let p = &profils[i];
        match &p.cle_id {
            Some(cle_id) => {
                // fetch the existing key from the custodian
                match middleware.transmettre_requete_cle_profil(cle_id) {
                    ResultatRequeteDistante::Valide(reponse) => {
                        if reponse.ok {
                            match reponse.cles {
                                Some(liste) => {
                                    if liste.len() == 1 {
                                        let cle = CleChiffrage {
                                            cle_id: cle_id.clone(),
                                            cle: liste[0].cle_secrete,
                                        };
                                        retenus.push(p.dupliquer());
                                        cles.push(cle);
                                        assert(crate::depot::opt_a_vue(
                                            retenus@[retenus@.len() - 1].cle_id,
                                            cles@[cles@.len() - 1].cle_id@));
                                    }
                                    // a count mismatch drops this profile
                                },
                                None => {},
                            }
                        }
                    },
                    _ => {
                        // timeout or unusable reply: drop this profile
                    },
                }
            },
            None => {
                // provision a fresh domain-scoped key
                match middleware.generer_cle() {
                    Ok(generee) => {
                        let commande = CommandeAjouterCleDomaine {
                            cles: generee.cles,
                            signature: generee.signature,
                        };
                        let enregistree = match middleware.transmettre_commande_cle(&commande) {
                            Some(reponse) => match reponse.ok {
                                Some(true) => true,
                                _ => false,
                            },
                            None => false,
                        };
                        if enregistree {
                            // the custodian confirmed; only then is the
                            // key id persisted on the profile
                            let ghost usagers_avant = depot.usagers@;
                            let enregistre_ici = depot.enregistrer_cle_profil(&p.user_id, &generee.cle_id, now);
                            proof {
                                crate::depot::lemma_enregistrer_cle_evolue(
                                    usagers_avant, p.user_id@, generee.cle_id, now);
                                crate::depot::lemma_evolution_transitive(
                                    old(depot).usagers@, usagers_avant, depot.usagers@);
                                assert forall|k: int| 0 <= k < profils@.len()
                                    implies crate::depot::contient_usager(
                                        depot.usagers@, (#[trigger] profils@[k]).user_id@) by {
                                    crate::depot::lemma_evolution_preserve_usager(
                                        usagers_avant, depot.usagers@, profils@[k].user_id@);
                                }
                                assert forall|k: int| 0 <= k < retenus@.len()
                                    implies crate::depot::contient_usager(
                                        depot.usagers@, (#[trigger] retenus@[k]).user_id@) by {
                                    crate::depot::lemma_evolution_preserve_usager(
                                        usagers_avant, depot.usagers@, retenus@[k].user_id@);
                                }
                            }
                            if enregistre_ici {
                                let profil_maj = ProfilUsagerMessages {
                                    user_id: p.user_id.clone(),
                                    nom_usager: dupliquer_option_chaine(&p.nom_usager),
                                    cle_id: Some(generee.cle_id.clone()),
                                    derniere_modification: now,
                                };
                                retenus.push(profil_maj);
                                cles.push(CleChiffrage { cle_id: generee.cle_id, cle: generee.cle });
                                assert(crate::depot::opt_a_vue(
                                    retenus@[retenus@.len() - 1].cle_id,
                                    cles@[cles@.len() - 1].cle_id@));
                            }
                            // a registration that cannot be persisted
                            // locally leaves the profile unresolved
                        }
                    },
                    Err(_) => {
                        // generation failed: drop this profile
                    },
                }
            },
        }
        i += 1;
    }

    // The usernames no profile on file answers to are excluded from
    // delivery and reported to the caller. Read off the store itself,
    // after every upsert, so the list is complete against what is on
    // file.
    let manquants = calculer_manquants(noms_usagers, &depot.usagers);

    // Defensive pairing check: emitting with mismatched keys would risk
    // cross-recipient key confusion.
    if cles.len() != retenus.len() {
        return Err(ErreurDomaine::IncoherenceCles);
    }

    Ok((retenus, cles, manquants))
}

// ---------------------------------------------------------------------------
// The aggregate response and its exact wording
// ---------------------------------------------------------------------------

/// The decimal digit of one value below ten.
pub open spec fn chiffre_de(n: int) -> char {
    if n == 0 {
        '0'
    } else if n == 1 {
        '1'
    } else if n == 2 {
        '2'
    } else if n == 3 {
        '3'
    } else if n == 4 {
        '4'
    } else if n == 5 {
        '5'
    } else if n == 6 {
        '6'
    } else if n == 7 {
        '7'
    } else if n == 8 {
        '8'
    } else {
        '9'
    }
}

/// The decimal writing of a count.
pub open spec fn decimal_de(n: int) -> Seq<char>
    decreases n,
{
    if n < 10 {
        seq![chiffre_de(n)]
    } else {
        decimal_de(n / 10).push(chiffre_de(n % 10))
    }
}

/// One decimal digit as text.
fn chiffre_texte(d: u64) -> (r: &'static str)
    requires
        d < 10,
    ensures
        r@ =~= seq![chiffre_de(d as int)],
{
    if d == 0 {
        proof {
            reveal_strlit("0");
        }
        "0"
    } else if d == 1 {
        proof {
            reveal_strlit("1");
        }
        "1"
    } else if d == 2 {
        proof {
            reveal_strlit("2");
        }
        "2"
    } else if d == 3 {
        proof {
            reveal_strlit("3");
        }
        "3"
    } else if d == 4 {
        proof {
            reveal_strlit("4");
        }
        "4"
    } else if d == 5 {
        proof {
            reveal_strlit("5");
        }
        "5"
    } else if d == 6 {
        proof {
            reveal_strlit("6");
        }
        "6"
    } else if d == 7 {
        proof {
            reveal_strlit("7");
        }
        "7"
    } else if d == 8 {
        proof {
            reveal_strlit("8");
        }
        "8"
    } else {
        proof {
            reveal_strlit("9");
        }
        "9"
    }
}

/// A count written in decimal.
pub fn format_decimal(n: u64) -> (s: String)
    ensures
        s@ == decimal_de(n as int),
    decreases n,
{
    if n < 10 {
        chiffre_texte(n).to_owned()
    } else {
        let mut s = format_decimal(n / 10);
        s.append(chiffre_texte(n % 10));
        s
    }
}

/// The wording of the partial-delivery notice.
pub open spec fn avis_partiel(profils: int, manquants: int) -> Seq<char> {
    "Message traite pour "@ + decimal_de(profils)
        + " destinataires. "@ + decimal_de(manquants)
        + " destinataires sont inconnus"@
}

/// The aggregate response of the fan-out: full delivery reports
/// creation, partial delivery reports success with the counts; either
/// way the command itself succeeded.
pub fn reponse_poster(nombre_profils: usize, nombre_manquants: usize) -> (r: ReponseCommandePoster)
    ensures
        r.ok == true,
        nombre_manquants == 0 ==> r.code == Some(201usize) && r.err is None,
        nombre_manquants > 0 ==> r.code == Some(200usize)
            && (r.err matches Some(e)
                && e@ == avis_partiel(nombre_profils as int, nombre_manquants as int)),
{
    if nombre_manquants > 0 {
        let mut texte = "Message traite pour ".to_owned();
        texte.append(format_decimal(nombre_profils as u64).as_str());
        texte.append(" destinataires. ");
        texte.append(format_decimal(nombre_manquants as u64).as_str());
        texte.append(" destinataires sont inconnus");
        ReponseCommandePoster { ok: true, code: Some(200), err: Some(texte) }
    } else {
        ReponseCommandePoster { ok: true, code: Some(201), err: None }
    }
}

// ---------------------------------------------------------------------------
// The fan-out itself
// ---------------------------------------------------------------------------

/// Set-on-insert preservation: across any number of receive upserts at
/// one server time, every existing row survives at its place with its
/// content intact; at most its modification time is refreshed.
pub open spec fn reception_conservee(avant: Seq<MessageDb>, apres: Seq<MessageDb>, now: i64) -> bool {
    &&& apres.len() >= avant.len()
    &&& forall|j: int| 0 <= j < avant.len()
        ==> #[trigger] apres[j] == avant[j] || apres[j] == crate::depot::touche_message(avant[j], now)
}

/// One receive upsert preserves every existing row's content.
proof fn lemma_upsert_conserve(
    s: Seq<MessageDb>,
    message_id: String,
    user_id: String,
    message: crate::structures_messages::DataChiffre,
    date: i64,
    now: i64,
)
    ensures
        reception_conservee(s, crate::depot::upsert_message_spec(s, message_id, user_id, message, date, now), now),
{
    let apres = crate::depot::upsert_message_spec(s, message_id, user_id, message, date, now);
    if crate::depot::contient_message(s, message_id@) {
        let j = choose|j: int| 0 <= j < s.len() && s[j].message_id@ == message_id@;
        assert(apres[j] == crate::depot::touche_message(s[j], now));
        assert(forall|k: int| 0 <= k < s.len() && k != j ==> apres[k] == s[k]);
    }
}

/// Preservation composes across the recipients of one fan-out.
proof fn lemma_conservation_transitive(a: Seq<MessageDb>, b: Seq<MessageDb>, c: Seq<MessageDb>, now: i64)
    requires
        reception_conservee(a, b, now),
        reception_conservee(b, c, now),
    ensures
        reception_conservee(a, c, now),
{
    assert forall|j: int| 0 <= j < a.len()
        implies #[trigger] c[j] == a[j] || c[j] == crate::depot::touche_message(a[j], now) by {
        if b[j] == crate::depot::touche_message(a[j], now) {
            assert(crate::depot::touche_message(b[j], now) == crate::depot::touche_message(a[j], now));
        }
    }
}

/// Re-encrypts the command for one recipient, tags the payload with
/// that recipient's key id, and emits exactly one receive-message
/// transaction for it: the logged transaction is addressed to this
/// recipient, carries this key id and the command's attachment
/// bindings, and the stores show exactly its application. Nothing is
/// written when the cipher fails.
pub fn sauvegarder_message<M: Middleware>(
    gestionnaire: &crate::domaine_messages::GestionnaireDomaineMessages,
    middleware: &mut M,
    depot: &mut DepotMessages,
    user_id: &String,
    cle_id: String,
    cle_secrete: CleSecrete,
    message: &MessagePostV1,
    now: i64,
) -> (r: Result<(), ErreurDomaine>)
    requires
        old(depot).inv(),
    ensures
        final(depot).inv(),
        final(depot).usagers@ == old(depot).usagers@,
        reception_conservee(old(depot).reception@, final(depot).reception@, now),
        final(depot).reception@.len() <= old(depot).reception@.len() + 1,
        r is Err ==> final(depot).reception@ == old(depot).reception@
            && final(depot).fichiers@ == old(depot).fichiers@
            && final(depot).journal@ == old(depot).journal@,
        // on success, the one logged transaction is the delivery to this
        // recipient under this key, and the stores are its application
        r is Ok ==> ({
            let t = final(depot).journal@.last();
            &&& final(depot).journal@ == old(depot).journal@.push(t)
            &&& crate::transactions::action_de(t) == Some(constantes::COMMANDE_POSTER_V1@)
            &&& t.estampille == now
            &&& t.user_id is None
            &&& crate::transactions::aiguillage_attendu(
                old(depot).reception@, old(depot).fichiers@, t, now)
                == Ok::<(Seq<MessageDb>, Seq<crate::structures_messages::FichierDb>), ErreurDomaine>(
                    (final(depot).reception@, final(depot).fichiers@))
            &&& (t.contenu matches crate::transactions::ContenuTransaction::RecevoirMessage(m)
                && m.user_id@ == user_id@
                && m.message.cle_id == Some(cle_id)
                && m.version == constantes::VERSION_TRANSACTION_MESSAGE_1
                && (match message.fichiers {
                    Some(fs) => m.fichiers matches Some(lfs) && lfs@.len() == fs@.len()
                        && (forall|k: int| 0 <= k < fs@.len()
                            ==> lfs@[k] == crate::transactions::fichier_de_message(#[trigger] fs@[k])),
                    None => m.fichiers is None,
                })
                && final(depot).reception@ == crate::depot::upsert_message_spec(
                    old(depot).reception@, t.id, m.user_id, m.message, t.estampille, now)
                && final(depot).fichiers@ == crate::depot::upsert_fichiers_spec(
                    old(depot).fichiers@, m.user_id, t.id, crate::transactions::fichiers_de(m), now))
        }),
        final(depot).reception@.len() == old(depot).reception@.len() + 1 ==> {
            let nouveau = final(depot).reception@.last();
            &&& nouveau.user_id@ == user_id@
            &&& nouveau.lu == false
            &&& nouveau.supprime is None
            &&& nouveau.creation == now
            &&& nouveau.date_traitement == now
            &&& crate::depot::opt_a_vue(nouveau.message.cle_id, cle_id@)
        },
{
    let chiffrage = match middleware.chiffrer_message(&cle_secrete, message) {
        Ok(inner) => inner,
        Err(e) => {
            return Err(e);
        },
    };

    let message_chiffre = crate::structures_messages::DataChiffre {
        data_chiffre: chiffrage.data_chiffre,
        format: Some(chiffrage.format),
        cle_id: Some(cle_id),
        nonce: chiffrage.nonce,
        verification: chiffrage.verification,
    };

    let fichiers: Option<Vec<crate::transactions::FichierMessage>> = match &message.fichiers {
        Some(fs) => {
            let nf = fs.len();
            let mut liste: Vec<crate::transactions::FichierMessage> = Vec::new();
            let mut i: usize = 0;
            while i < nf
                invariant
                    nf == fs@.len(),
                    0 <= i <= nf,
                    liste@.len() == i,
                    forall|k: int| 0 <= k < i
                        ==> liste@[k] == crate::transactions::fichier_de_message(#[trigger] fs@[k]),
                decreases nf - i,
            {
                liste.push(crate::transactions::FichierMessage::from(&fs[i]));
                i += 1;
            }
            Some(liste)
        },
        None => None,
    };

    let transaction_message = crate::transactions::TransactionRecevoirMessage::new(
        user_id.clone(), message_chiffre, fichiers);

    let transaction = crate::transactions::TransactionValide {
        id: middleware.nouvelle_transaction_id(),
        routage: Some(crate::transactions::RoutageTransaction {
            action: Some(constantes::COMMANDE_POSTER_V1.to_owned()),
        }),
        estampille: now,
        contenu: crate::transactions::ContenuTransaction::RecevoirMessage(transaction_message),
        user_id: None,
    };
    let ghost t = transaction;

    let r = crate::transactions::sauvegarder_traiter_transaction(gestionnaire, depot, transaction, now);
    proof {
        lemma_upsert_conserve(
            old(depot).reception@, t.id, t.contenu->RecevoirMessage_0.user_id,
            t.contenu->RecevoirMessage_0.message, t.estampille, now);
    }
    match r {
        Ok(()) => Ok(()),
        Err(e) => Err(e),
    }
}

/// The fan-out of one post command once its envelope is validated: the
/// message key resolved or requested from the custodian, the command
/// decrypted, the recipients resolved, and one transaction emitted per
/// resolved recipient. A custodian timeout answers the caller with the
/// soft failure and persists nothing; unknown recipients make a
/// successful no-op; and a delivery report owes its deliveries: the
/// full- and partial-delivery codes come only with freshly logged
/// receive-message transactions, addressed to recipients on file, whose
/// application is exactly what the stores show.
pub fn commande_poster_v1<M: Middleware>(
    gestionnaire: &crate::domaine_messages::GestionnaireDomaineMessages,
    middleware: &mut M,
    depot: &mut DepotMessages,
    message: &crate::messages_bus::MessageValide,
    now: i64,
) -> (r: Result<ReponseCommandePoster, ErreurDomaine>)
    requires
        old(depot).inv(),
    ensures
        final(depot).inv(),
        reception_conservee(old(depot).reception@, final(depot).reception@, now),
        crate::depot::usagers_evolues(old(depot).usagers@, final(depot).usagers@),
        // terminal rejection: an envelope without decryption metadata
        // or without wrapped keys changes nothing and is dropped
        message.dechiffrage is None
            ==> r == Err::<ReponseCommandePoster, ErreurDomaine>(ErreurDomaine::EntreeMalformee)
                && *final(depot) == *old(depot),
        message.dechiffrage matches Some(d)
            ==> d.cles is None
            ==> r == Err::<ReponseCommandePoster, ErreurDomaine>(ErreurDomaine::EntreeMalformee)
                && *final(depot) == *old(depot),
        message.dechiffrage matches Some(d)
            ==> d.cles matches Some(c)
            ==> c@.len() == 0
            ==> r == Err::<ReponseCommandePoster, ErreurDomaine>(ErreurDomaine::EntreeMalformee)
                && *final(depot) == *old(depot),
        r matches Ok(rep) ==> {
            // custodian timeout: the soft failure, nothing persisted
            &&& rep.ok == false ==> rep.code == Some(3usize)
                && (rep.err matches Some(e) && e@ == "Timeout serveur"@)
                && *final(depot) == *old(depot)
            // unknown recipients: a successful no-op
            &&& rep.code == Some(1usize) ==> rep.ok == true
                && (rep.err matches Some(e) && e@ == "Destinataires inconnus"@)
                && final(depot).reception@ == old(depot).reception@
                && final(depot).fichiers@ == old(depot).fichiers@
                && final(depot).journal@ == old(depot).journal@
            // full delivery reports creation, partial delivery reports
            // the counts
            &&& rep.ok == true ==> (rep.code == Some(1usize) || rep.code == Some(200usize)
                || rep.code == Some(201usize))
            &&& rep.code == Some(201usize) ==> rep.err is None
            // a partial delivery reports a positive count of unknown
            // recipients in the exact wording
            &&& rep.code == Some(200usize) ==> (rep.err matches Some(e)
                && exists|p: int, m: int| 0 <= p && 0 < m && e@ == avis_partiel(p, m))
            // a delivery report is owed its deliveries: at least one
            // transaction was logged
            &&& rep.ok == true ==> (rep.code == Some(200usize) || rep.code == Some(201usize))
                ==> final(depot).journal@.len() > old(depot).journal@.len()
        },
        // the log is append-only, every entry it gains is a
        // receive-message transaction stamped with this invocation, and
        // the stores show exactly the application of those entries
        final(depot).journal@.len() >= old(depot).journal@.len(),
        forall|j: int| 0 <= j < old(depot).journal@.len()
            ==> final(depot).journal@[j] == old(depot).journal@[j],
        forall|j: int| old(depot).journal@.len() <= j < final(depot).journal@.len()
            ==> crate::transactions::action_de(#[trigger] final(depot).journal@[j])
                    == Some(constantes::COMMANDE_POSTER_V1@)
                && final(depot).journal@[j].estampille == now
                && (final(depot).journal@[j].contenu matches
                    crate::transactions::ContenuTransaction::RecevoirMessage(m)
                    && crate::depot::contient_usager(final(depot).usagers@, m.user_id@)),
        crate::transactions::etats_suivent_journal(
            old(depot).reception@, old(depot).fichiers@,
            final(depot).journal@.skip(old(depot).journal@.len() as int), now,
            final(depot).reception@, final(depot).fichiers@),
{
    let dechiffrage = match &message.dechiffrage {
        Some(inner) => inner,
        None => {
            return Err(ErreurDomaine::EntreeMalformee);
        },
    };
    let cles = match &dechiffrage.cles {
        Some(inner) => inner,
        None => {
            return Err(ErreurDomaine::EntreeMalformee);
        },
    };
    if cles.is_empty() {
        // the key map must name at least one certificate
        return Err(ErreurDomaine::EntreeMalformee);
    }

    let fingerprint = middleware.get_fingerprint();

    // local fast path: the envelope may carry a key wrapped for this
    // node's own certificate
    let nc = cles.len();
    let mut locale: Option<usize> = None;
    let mut i: usize = 0;
    while i < nc
        invariant
            nc == cles@.len(),
            0 <= i <= nc,
            match locale {
                Some(ix) => ix < nc,
                None => true,
            },
        decreases nc - i,
    {
        if locale.is_none() && cles[i].fingerprint.eq(&fingerprint) {
            locale = Some(i);
        }
        i += 1;
    }

    let cle_dechiffrage: CleSecrete = match locale {
        Some(ix) => {
            match middleware.dechiffrer_cle_locale(&cles[ix].cle) {
                Ok(inner) => inner,
                Err(e) => {
                    return Err(e);
                },
            }
        },
        None => {
            // ask the custodian to decrypt the message key on this
            // domain's behalf; a timeout or a malformed reply becomes
            // the soft failure the sender can retry on, never an
            // exception
            match middleware.transmettre_requete_dechiffrage_message(dechiffrage) {
                ResultatRequeteDistante::Valide(reponse) => {
                    match reponse.cle_secrete {
                        Some(inner) => inner,
                        None => {
                            return Ok(ReponseCommandePoster {
                                ok: false,
                                code: Some(3),
                                err: Some("Timeout serveur".to_owned()),
                            });
                        },
                    }
                },
                ResultatRequeteDistante::Aucune => {
                    return Ok(ReponseCommandePoster {
                        ok: false,
                        code: Some(3),
                        err: Some("Timeout serveur".to_owned()),
                    });
                },
                ResultatRequeteDistante::Echec => {
                    return Ok(ReponseCommandePoster {
                        ok: false,
                        code: Some(3),
                        err: Some("Timeout serveur".to_owned()),
                    });
                },
            }
        },
    };

    // the one-time inbound decryption of the command
    let resultat = match middleware.dechiffrer_message(&cle_dechiffrage, &message.buffer) {
        Ok(inner) => inner,
        Err(e) => {
            return Err(e);
        },
    };

    // resolve recipients and their keys
    let (profils, cles_chiffrage, manquants) = match get_profils_usagers(
        middleware, depot, &resultat.destinataires, now) {
        Ok(inner) => inner,
        Err(e) => {
            return Err(e);
        },
    };

    let nombre_profils = profils.len();
    if nombre_profils == 0 {
        return Ok(ReponseCommandePoster {
            ok: true,
            code: Some(1),
            err: Some("Destinataires inconnus".to_owned()),
        });
    }

    // one transaction per resolved recipient, emitted and applied in
    // turn; a recipient whose key slipped away is skipped, the others
    // are served
    let np = profils.len();
    let ghost usagers_apres = depot.usagers@;
    let mut i: usize = 0;
    proof {
        assert(depot.journal@.skip(old(depot).journal@.len() as int)
            =~= Seq::<crate::transactions::TransactionValide>::empty());
    }
    while i < np
        invariant
            np == profils@.len(),
            0 <= i <= np,
            depot.inv(),
            message.dechiffrage is Some,
            message.dechiffrage.unwrap().cles is Some,
            message.dechiffrage.unwrap().cles.unwrap()@.len() > 0,
            profils_et_cles_apparies(profils@, cles_chiffrage@),
            reception_conservee(old(depot).reception@, depot.reception@, now),
            // one logged delivery per recipient served so far, each
            // addressed to a recipient with a profile on file
            depot.usagers@ == usagers_apres,
            crate::depot::usagers_evolues(old(depot).usagers@, depot.usagers@),
            forall|k: int| 0 <= k < profils@.len()
                ==> crate::depot::contient_usager(
                    depot.usagers@, (#[trigger] profils@[k]).user_id@),
            depot.journal@.len() == old(depot).journal@.len() + i,
            forall|j: int| 0 <= j < old(depot).journal@.len()
                ==> depot.journal@[j] == old(depot).journal@[j],
            forall|j: int| old(depot).journal@.len() <= j < depot.journal@.len()
                ==> crate::transactions::action_de(#[trigger] depot.journal@[j])
                        == Some(constantes::COMMANDE_POSTER_V1@)
                    && depot.journal@[j].estampille == now
                    && (depot.journal@[j].contenu matches
                        crate::transactions::ContenuTransaction::RecevoirMessage(m)
                        && crate::depot::contient_usager(depot.usagers@, m.user_id@)),
            crate::transactions::etats_suivent_journal(
                old(depot).reception@, old(depot).fichiers@,
                depot.journal@.skip(old(depot).journal@.len() as int), now,
                depot.reception@, depot.fichiers@),
        decreases np - i,
    {
        let ghost etape = depot.reception@;
        let ghost journal_etape = depot.journal@;
        let ghost fichiers_etape = depot.fichiers@;
        let profil = &profils[i];
        let cle_id = match &profil.cle_id {
            Some(inner) => inner,
            None => {
                // the pairing of the delivery set rules this out
                proof {
                    assert(crate::depot::opt_a_vue(profils@[i as int].cle_id, cles_chiffrage@[i as int].cle_id@));
                }
                return Err(ErreurDomaine::IncoherenceCles);
            },
        };
        let ix = match trouver_cle(&cles_chiffrage, cle_id) {
            Some(inner) => inner,
            None => {
                // the pairing of the delivery set rules this out
                proof {
                    assert(crate::depot::opt_a_vue(profils@[i as int].cle_id, cles_chiffrage@[i as int].cle_id@));
                }
                return Err(ErreurDomaine::IncoherenceCles);
            },
        };
        let cle = cles_chiffrage[ix].cle;
        match sauvegarder_message(
            gestionnaire, middleware, depot, &profil.user_id,
            cle_id.clone(), cle, &resultat, now) {
            Ok(()) => {
                proof {
                    let t = depot.journal@.last();
                    crate::transactions::lemma_journal_etape(
                        old(depot).reception@, old(depot).fichiers@,
                        journal_etape.skip(old(depot).journal@.len() as int), t, now,
                        etape, fichiers_etape,
                        depot.reception@, depot.fichiers@);
                    assert(depot.journal@.skip(old(depot).journal@.len() as int)
                        =~= journal_etape.skip(old(depot).journal@.len() as int).push(t));
                }
            },
            Err(e) => {
                proof {
                    lemma_conservation_transitive(
                        old(depot).reception@, etape, depot.reception@, now);
                }
                return Err(e);
            },
        }
        proof {
            lemma_conservation_transitive(old(depot).reception@, etape, depot.reception@, now);
        }
        i += 1;
    }

    Ok(reponse_poster(nombre_profils, manquants.len()))
}

/// Serves one authenticated command: authorization first, then dispatch by
/// action name; the only command of this domain is the post, anything
/// else is dropped with an error.
pub fn consommer_commande<M: Middleware>(
    gestionnaire: &crate::domaine_messages::GestionnaireDomaineMessages,
    middleware: &mut M,
    depot: &mut DepotMessages,
    message: &crate::messages_bus::MessageValide,
) -> (r: Result<ReponseCommandePoster, ErreurDomaine>)
    requires
        old(depot).inv(),
    ensures
        final(depot).inv(),
        crate::depot::usagers_evolues(old(depot).usagers@, final(depot).usagers@),
        crate::autorisation::autorisation_attendue(message.certificat) is Err
            ==> r == Err::<ReponseCommandePoster, ErreurDomaine>(ErreurDomaine::Autorisation)
                && *final(depot) == *old(depot),
        crate::autorisation::autorisation_attendue(message.certificat) is Ok
            ==> !(message.type_message is Commande)
            ==> r == Err::<ReponseCommandePoster, ErreurDomaine>(ErreurDomaine::MauvaisTypeMessage)
                && *final(depot) == *old(depot),
        message.type_message matches crate::messages_bus::TypeMessageOut::Commande(rt)
            ==> crate::autorisation::autorisation_attendue(message.certificat) is Ok
            ==> rt.action@ != constantes::COMMANDE_POSTER_V1@
            ==> (r matches Err(ErreurDomaine::ActionInconnue(a)) && a@ == rt.action@)
                && *final(depot) == *old(depot),
        // on the post path, a soft custodian failure persists nothing
        r matches Ok(rep) ==> rep.ok == false
            ==> rep.code == Some(3usize) && *final(depot) == *old(depot),
        // a delivery report is owed its deliveries
        r matches Ok(rep) ==> rep.ok == true
            ==> (rep.code == Some(200usize) || rep.code == Some(201usize))
            ==> final(depot).journal@.len() > old(depot).journal@.len(),
        // the log is append-only, gains only receive-message
        // transactions stamped with one reading of the clock, and the
        // stores show exactly their application
        final(depot).journal@.len() >= old(depot).journal@.len(),
        forall|j: int| 0 <= j < old(depot).journal@.len()
            ==> final(depot).journal@[j] == old(depot).journal@[j],
        forall|j: int| old(depot).journal@.len() <= j < final(depot).journal@.len()
            ==> crate::transactions::action_de(#[trigger] final(depot).journal@[j])
                    == Some(constantes::COMMANDE_POSTER_V1@)
                && (final(depot).journal@[j].contenu matches
                    crate::transactions::ContenuTransaction::RecevoirMessage(m)
                    && crate::depot::contient_usager(final(depot).usagers@, m.user_id@)),
        exists|instant: i64| crate::transactions::etats_suivent_journal(
            old(depot).reception@, old(depot).fichiers@,
            final(depot).journal@.skip(old(depot).journal@.len() as int), instant,
            final(depot).reception@, final(depot).fichiers@),
{
    proof {
        // an untouched store is what applying no journal entry leaves
        assert(depot.journal@.skip(depot.journal@.len() as int)
            =~= Seq::<crate::transactions::TransactionValide>::empty());
        assert(crate::transactions::etats_suivent_journal(
            depot.reception@, depot.fichiers@,
            depot.journal@.skip(depot.journal@.len() as int), 0i64,
            depot.reception@, depot.fichiers@));
    }
    let (_user_id, _role_prive) = match crate::autorisation::verifier_autorisation(&message.certificat) {
        Ok(inner) => inner,
        Err(e) => {
            return Err(e);
        },
    };

    let routage = match &message.type_message {
        crate::messages_bus::TypeMessageOut::Commande(r) => r,
        _ => {
            return Err(ErreurDomaine::MauvaisTypeMessage);
        },
    };

    if routage.action.eq(&constantes::COMMANDE_POSTER_V1.to_owned()) {
        let now = middleware.maintenant();
        let r = commande_poster_v1(gestionnaire, middleware, depot, message, now);
        proof {
            assert(crate::transactions::etats_suivent_journal(
                old(depot).reception@, old(depot).fichiers@,
                depot.journal@.skip(old(depot).journal@.len() as int), now,
                depot.reception@, depot.fichiers@));
        }
        r
    } else {
        Err(ErreurDomaine::ActionInconnue(routage.action.clone()))
    }
}



} // verus!
