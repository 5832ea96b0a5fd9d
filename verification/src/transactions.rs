use vstd::prelude::*;

use crate::constantes;
use crate::depot::{
    fichiers_restants, marquer_lus_spec, messages_restants,
    upsert_fichier_spec, upsert_fichiers_spec, upsert_message_spec, DepotMessages,
};
use crate::domaine_messages::GestionnaireDomaineMessages;
use crate::erreurs::ErreurDomaine;
use crate::structures_messages::{DataChiffre, FichierDb, MessageDb};

verus! {

/// Per-file encryption metadata carried inside a receive-message
/// transaction; persisted as one attachment row per file.
#[derive(Debug, Clone)]
pub struct FichierMessage {
    pub fuuid: String,
    pub taille_chiffre: i64,
    pub cle_id: String,
    pub format: String,
    pub nonce: Option<String>,
    pub verification: Option<String>,
}

impl<'a> From<&'a crate::commandes::MessageFichierV1> for FichierMessage {
    fn from(value: &'a crate::commandes::MessageFichierV1) -> (r: Self) {
        FichierMessage {
            fuuid: value.fuuid.clone(),
            taille_chiffre: value.taille_chiffre,
            cle_id: value.cle_id.clone(),
            format: value.format.clone(),
            nonce: crate::structures_messages::dupliquer_option_chaine(&value.nonce),
            verification: crate::structures_messages::dupliquer_option_chaine(&value.verification),
        }
    }
}

/// The attachment binding a receive-message transaction carries for one
/// file of the decrypted command.
pub open spec fn fichier_de_message(v: crate::commandes::MessageFichierV1) -> FichierMessage {
    FichierMessage {
        fuuid: v.fuuid,
        taille_chiffre: v.taille_chiffre,
        cle_id: v.cle_id,
        format: v.format,
        nonce: v.nonce,
        verification: v.verification,
    }
}

impl<'a> vstd::std_specs::convert::FromSpecImpl<&'a crate::commandes::MessageFichierV1> for FichierMessage {
    open spec fn obeys_from_spec() -> bool {
        true
    }

    open spec fn from_spec(v: &'a crate::commandes::MessageFichierV1) -> Self {
        fichier_de_message(*v)
    }
}

impl FichierMessage {
    /// Copy of the binding, equal to its source.
    pub fn dupliquer(&self) -> (r: Self)
        ensures
            r == *self,
    {
        FichierMessage {
            fuuid: self.fuuid.clone(),
            taille_chiffre: self.taille_chiffre,
            cle_id: self.cle_id.clone(),
            format: self.format.clone(),
            nonce: crate::structures_messages::dupliquer_option_chaine(&self.nonce),
            verification: crate::structures_messages::dupliquer_option_chaine(&self.verification),
        }
    }
}

/// Body of a receive-message transaction: one recipient, the payload
/// re-encrypted for that recipient, and the optional attachment bindings.
#[derive(Debug, Clone)]
pub struct TransactionRecevoirMessage {
    pub user_id: String,
    pub message: DataChiffre,
    pub fichiers: Option<Vec<FichierMessage>>,
    pub version: u16,
}

impl TransactionRecevoirMessage {
    pub fn new(user_id: String, message: DataChiffre, fichiers: Option<Vec<FichierMessage>>) -> (t: Self)
        ensures
            t.user_id == user_id,
            t.message == message,
            t.fichiers == fichiers,
            t.version == constantes::VERSION_TRANSACTION_MESSAGE_1,
    {
        Self { user_id, message, fichiers, version: constantes::VERSION_TRANSACTION_MESSAGE_1 }
    }
}

/// Body of a mark-read transaction: the ids the caller wants flagged.
#[derive(Debug, Clone)]
pub struct TransactionMarquerLu {
    pub message_ids: Vec<String>,
}

/// Body of a delete-message transaction: the ids the caller wants removed.
#[derive(Debug, Clone)]
pub struct TransactionSupprimerMessage {
    pub message_ids: Vec<String>,
}

/// The typed body of an accepted transaction. The action name of the
/// routing still decides the dispatch; a body that does not match its
/// action is rejected as malformed, as a failed deserialization would be.
#[derive(Debug, Clone)]
pub enum ContenuTransaction {
    RecevoirMessage(TransactionRecevoirMessage),
    MarquerLu(TransactionMarquerLu),
    SupprimerMessage(TransactionSupprimerMessage),
}

/// Routing metadata of a transaction; a replayed transaction without an
/// action cannot be dispatched.
#[derive(Debug, Clone)]
pub struct RoutageTransaction {
    pub action: Option<String>,
}

/// An immutable accepted operation of the append-only log. `id` is the
/// idempotency key and doubles as the message id for receive operations;
/// `user_id` is the user identity of the issuing certificate, when the
/// certificate carries one.
#[derive(Debug, Clone)]
pub struct TransactionValide {
    pub id: String,
    pub routage: Option<RoutageTransaction>,
    pub estampille: i64,
    pub contenu: ContenuTransaction,
    pub user_id: Option<String>,
}

/// The action name a transaction is dispatched on, when it has one.
pub open spec fn action_de(t: TransactionValide) -> Option<Seq<char>> {
    match t.routage {
        Some(r) => match r.action {
            Some(a) => Some(a@),
            None => None,
        },
        None => None,
    }
}

/// The attachment bindings a receive-message transaction carries.
pub open spec fn fichiers_de(t: TransactionRecevoirMessage) -> Seq<FichierMessage> {
    match t.fichiers {
        Some(fs) => fs@,
        None => Seq::<FichierMessage>::empty(),
    }
}

/// What the applier does with one transaction: the reception and
/// attachment stores it leaves behind on success, or the error that
/// halts the replay. The state machine is total: every transaction
/// either transforms the store or fails loudly; none is skipped.
pub open spec fn aiguillage_attendu(
    reception: Seq<MessageDb>,
    fichiers: Seq<FichierDb>,
    t: TransactionValide,
    now: i64,
) -> Result<(Seq<MessageDb>, Seq<FichierDb>), ErreurDomaine> {
    match action_de(t) {
        None => Err(ErreurDomaine::TransactionSansAction),
        Some(a) => {
            if a == constantes::COMMANDE_POSTER_V1@ {
                match t.contenu {
                    ContenuTransaction::RecevoirMessage(m) => Ok((
                        upsert_message_spec(reception, t.id, m.user_id, m.message, t.estampille, now),
                        upsert_fichiers_spec(fichiers, m.user_id, t.id, fichiers_de(m), now),
                    )),
                    _ => Err(ErreurDomaine::EntreeMalformee),
                }
            } else if a == constantes::COMMANDE_MARQUER_LU@ {
                match t.contenu {
                    ContenuTransaction::MarquerLu(m) => match t.user_id {
                        Some(u) => Ok((marquer_lus_spec(reception, u@, m.message_ids@, now), fichiers)),
                        None => Err(ErreurDomaine::CertificatSansUserId),
                    },
                    _ => Err(ErreurDomaine::EntreeMalformee),
                }
            } else if a == constantes::COMMANDE_SUPPRIMER_MESSAGE@ {
                match t.contenu {
                    ContenuTransaction::SupprimerMessage(m) => match t.user_id {
                        Some(u) => Ok((
                            messages_restants(reception, u@, m.message_ids@),
                            fichiers_restants(fichiers, u@, m.message_ids@),
                        )),
                        None => Err(ErreurDomaine::CertificatSansUserId),
                    },
                    _ => Err(ErreurDomaine::EntreeMalformee),
                }
            } else {
                Err(ErreurDomaine::TransactionInconnue(t.routage.unwrap().action.unwrap()))
            }
        },
    }
}

/// The two stores `reception1`/`fichiers1` are what applying the listed
/// journal entries, in order and all successfully, leaves of
/// `reception0`/`fichiers0`. This is what the fan-out owes: the stores
/// it hands back show exactly the application of the transactions it
/// logged.
pub open spec fn etats_suivent_journal(
    reception0: Seq<MessageDb>,
    fichiers0: Seq<FichierDb>,
    entrees: Seq<TransactionValide>,
    now: i64,
    reception1: Seq<MessageDb>,
    fichiers1: Seq<FichierDb>,
) -> bool
    decreases entrees.len(),
{
    if entrees.len() == 0 {
        reception1 == reception0 && fichiers1 == fichiers0
    } else {
        match aiguillage_attendu(reception0, fichiers0, entrees[0], now) {
            Ok(paire) => etats_suivent_journal(
                paire.0, paire.1, entrees.drop_first(), now, reception1, fichiers1),
            Err(_) => false,
        }
    }
}

/// Extending an applied journal by one successfully applied transaction
/// extends the application.
pub proof fn lemma_journal_etape(
    reception0: Seq<MessageDb>,
    fichiers0: Seq<FichierDb>,
    entrees: Seq<TransactionValide>,
    t: TransactionValide,
    now: i64,
    reception1: Seq<MessageDb>,
    fichiers1: Seq<FichierDb>,
    reception2: Seq<MessageDb>,
    fichiers2: Seq<FichierDb>,
)
    requires
        etats_suivent_journal(reception0, fichiers0, entrees, now, reception1, fichiers1),
        aiguillage_attendu(reception1, fichiers1, t, now)
            == Ok::<(Seq<MessageDb>, Seq<FichierDb>), ErreurDomaine>((reception2, fichiers2)),
    ensures
        etats_suivent_journal(reception0, fichiers0, entrees.push(t), now, reception2, fichiers2),
    decreases entrees.len(),
{
    if entrees.len() == 0 {
        assert(entrees.push(t)[0] == t);
        assert(entrees.push(t).drop_first() =~= Seq::<TransactionValide>::empty());
        assert(etats_suivent_journal(
            reception2, fichiers2, entrees.push(t).drop_first(), now, reception2, fichiers2));
    } else {
        assert(entrees.push(t)[0] == entrees[0]);
        assert(entrees.push(t).drop_first() =~= entrees.drop_first().push(t));
        match aiguillage_attendu(reception0, fichiers0, entrees[0], now) {
            Ok(paire) => {
                lemma_journal_etape(
                    paire.0, paire.1, entrees.drop_first(), t, now,
                    reception1, fichiers1, reception2, fichiers2);
            },
            Err(_) => {
                assert(false);
            },
        }
    }
}

/// Applies one receive-message transaction: set-on-insert upsert of the
/// message row keyed by the transaction id, then of each attachment
/// binding. Replay refreshes modification times and changes nothing
/// else.
pub fn transaction_poster_v1(
    _gestionnaire: &GestionnaireDomaineMessages,
    depot: &mut DepotMessages,
    transaction: &TransactionValide,
    now: i64,
) -> (r: Result<(), ErreurDomaine>)
    requires
        old(depot).inv(),
    ensures
        final(depot).inv(),
        transaction.contenu matches ContenuTransaction::RecevoirMessage(m) ==> {
            &&& r == Ok::<(), ErreurDomaine>(())
            &&& final(depot).reception@ == upsert_message_spec(
                old(depot).reception@, transaction.id, m.user_id, m.message, transaction.estampille, now)
            &&& final(depot).fichiers@ == upsert_fichiers_spec(
                old(depot).fichiers@, m.user_id, transaction.id, fichiers_de(m), now)
        },
        !(transaction.contenu matches ContenuTransaction::RecevoirMessage(_)) ==> {
            &&& r == Err::<(), ErreurDomaine>(ErreurDomaine::EntreeMalformee)
            &&& final(depot).reception@ == old(depot).reception@
            &&& final(depot).fichiers@ == old(depot).fichiers@
        },
        final(depot).usagers@ == old(depot).usagers@,
        final(depot).journal@ == old(depot).journal@,
{
    let message_recu = match &transaction.contenu {
        ContenuTransaction::RecevoirMessage(m) => m,
        _ => {
            return Err(ErreurDomaine::EntreeMalformee);
        },
    };
    let message_id = &transaction.id;
    let user_id = &message_recu.user_id;

    depot.upsert_message(
        message_id,
        user_id,
        message_recu.message.dupliquer(),
        transaction.estampille,
        now,
    );

    let ghost reception_apres = depot.reception@;
    let ghost cible = upsert_fichiers_spec(
        depot.fichiers@, message_recu.user_id, transaction.id, fichiers_de(*message_recu), now);

    match &message_recu.fichiers {
        Some(fichiers) => {
            let nf = fichiers.len();
            let mut i: usize = 0;
            proof {
                assert(fichiers_de(*message_recu) == fichiers@);
                assert(fichiers@.subrange(0, nf as int) =~= fichiers@);
            }
            while i < nf
                invariant
                    nf == fichiers@.len(),
                    0 <= i <= nf,
                    *user_id == message_recu.user_id,
                    *message_id == transaction.id,
                    depot.inv(),
                    depot.reception@ == reception_apres,
                    depot.usagers@ == old(depot).usagers@,
                    depot.journal@ == old(depot).journal@,
                    cible == upsert_fichiers_spec(
                        depot.fichiers@, message_recu.user_id, transaction.id,
                        fichiers@.subrange(i as int, nf as int), now),
                decreases nf - i,
            {
                let ghost dep_avant = depot.fichiers@;
                let ghost reste = fichiers@.subrange(i as int, nf as int);
                let copie = fichiers[i].dupliquer();
                assert(copie == fichiers@[i as int]);
                depot.upsert_fichier(user_id, message_id, copie, now);
                proof {
                    assert(reste[0] == fichiers@[i as int]);
                    assert(reste.drop_first() =~= fichiers@.subrange(i + 1 as int, nf as int));
                    assert(upsert_fichiers_spec(dep_avant, message_recu.user_id, transaction.id, reste, now)
                        == upsert_fichiers_spec(
                            upsert_fichier_spec(dep_avant, message_recu.user_id, transaction.id, reste[0], now),
                            message_recu.user_id, transaction.id, reste.drop_first(), now));
                    assert(depot.fichiers@ == upsert_fichier_spec(
                        dep_avant, message_recu.user_id, transaction.id, fichiers@[i as int], now));
                }
                i += 1;
            }
            proof {
                assert(fichiers@.subrange(nf as int, nf as int) =~= Seq::<FichierMessage>::empty());
            }
        },
        None => {
            proof {
                assert(fichiers_de(*message_recu) =~= Seq::<FichierMessage>::empty());
            }
        },
    }
    Ok(())
}

/// Applies one mark-read transaction: flags the rows of the issuing
/// user named by the batch; ids owned by other users are silently
/// ignored.
pub fn transaction_marquer_lu(
    _gestionnaire: &GestionnaireDomaineMessages,
    depot: &mut DepotMessages,
    transaction: &TransactionValide,
    now: i64,
) -> (r: Result<(), ErreurDomaine>)
    requires
        old(depot).inv(),
    ensures
        final(depot).inv(),
        transaction.contenu matches ContenuTransaction::MarquerLu(m)
            ==> transaction.user_id matches Some(u)
            ==> {
            &&& r == Ok::<(), ErreurDomaine>(())
            &&& final(depot).reception@ == marquer_lus_spec(old(depot).reception@, u@, m.message_ids@, now)
        },
        transaction.contenu matches ContenuTransaction::MarquerLu(_)
            ==> transaction.user_id is None
            ==> r == Err::<(), ErreurDomaine>(ErreurDomaine::CertificatSansUserId)
                && final(depot).reception@ == old(depot).reception@,
        !(transaction.contenu matches ContenuTransaction::MarquerLu(_)) ==>
            r == Err::<(), ErreurDomaine>(ErreurDomaine::EntreeMalformee)
                && final(depot).reception@ == old(depot).reception@,
        final(depot).fichiers@ == old(depot).fichiers@,
        final(depot).usagers@ == old(depot).usagers@,
        final(depot).journal@ == old(depot).journal@,
{
    let message_recu = match &transaction.contenu {
        ContenuTransaction::MarquerLu(m) => m,
        _ => {
            return Err(ErreurDomaine::EntreeMalformee);
        },
    };
    let user_id = match &transaction.user_id {
        Some(u) => u,
        None => {
            return Err(ErreurDomaine::CertificatSansUserId);
        },
    };
    depot.marquer_lus(user_id, &message_recu.message_ids, now);
    Ok(())
}

/// Applies one delete-message transaction: hard-deletes the rows of the
/// issuing user named by the batch, and their attachment bindings with
/// them.
pub fn transaction_supprimer_message(
    _gestionnaire: &GestionnaireDomaineMessages,
    depot: &mut DepotMessages,
    transaction: &TransactionValide,
) -> (r: Result<(), ErreurDomaine>)
    requires
        old(depot).inv(),
    ensures
        final(depot).inv(),
        transaction.contenu matches ContenuTransaction::SupprimerMessage(m)
            ==> transaction.user_id matches Some(u)
            ==> {
            &&& r == Ok::<(), ErreurDomaine>(())
            &&& final(depot).reception@ == messages_restants(old(depot).reception@, u@, m.message_ids@)
            &&& final(depot).fichiers@ == fichiers_restants(old(depot).fichiers@, u@, m.message_ids@)
        },
        transaction.contenu matches ContenuTransaction::SupprimerMessage(_)
            ==> transaction.user_id is None
            ==> r == Err::<(), ErreurDomaine>(ErreurDomaine::CertificatSansUserId)
                && final(depot).reception@ == old(depot).reception@
                && final(depot).fichiers@ == old(depot).fichiers@,
        !(transaction.contenu matches ContenuTransaction::SupprimerMessage(_)) ==>
            r == Err::<(), ErreurDomaine>(ErreurDomaine::EntreeMalformee)
                && final(depot).reception@ == old(depot).reception@
                && final(depot).fichiers@ == old(depot).fichiers@,
        final(depot).usagers@ == old(depot).usagers@,
        final(depot).journal@ == old(depot).journal@,
{
    let message_recu = match &transaction.contenu {
        ContenuTransaction::SupprimerMessage(m) => m,
        _ => {
            return Err(ErreurDomaine::EntreeMalformee);
        },
    };
    let user_id = match &transaction.user_id {
        Some(u) => u,
        None => {
            return Err(ErreurDomaine::CertificatSansUserId);
        },
    };
    depot.supprimer_messages(user_id, &message_recu.message_ids);
    Ok(())
}

/// Dispatches one transaction to its applier by action name. A
/// transaction without routing, with a body that does not match its
/// action, or with an action this domain does not recognise halts the
/// replay with a fatal error; the store is then left untouched.
pub fn aiguillage_transaction(
    gestionnaire: &GestionnaireDomaineMessages,
    depot: &mut DepotMessages,
    transaction: &TransactionValide,
    now: i64,
) -> (r: Result<(), ErreurDomaine>)
    requires
        old(depot).inv(),
    ensures
        final(depot).inv(),
        match aiguillage_attendu(old(depot).reception@, old(depot).fichiers@, *transaction, now) {
            Ok(paire) => r == Ok::<(), ErreurDomaine>(())
                && final(depot).reception@ == paire.0
                && final(depot).fichiers@ == paire.1,
            Err(e) => r == Err::<(), ErreurDomaine>(e)
                && final(depot).reception@ == old(depot).reception@
                && final(depot).fichiers@ == old(depot).fichiers@,
        },
        final(depot).usagers@ == old(depot).usagers@,
        final(depot).journal@ == old(depot).journal@,
{
    let action = match &transaction.routage {
        Some(r) => match &r.action {
            Some(a) => a,
            None => {
                return Err(ErreurDomaine::TransactionSansAction);
            },
        },
        None => {
            return Err(ErreurDomaine::TransactionSansAction);
        },
    };

    if action.eq(&constantes::COMMANDE_POSTER_V1.to_owned()) {
        transaction_poster_v1(gestionnaire, depot, transaction, now)
    } else if action.eq(&constantes::COMMANDE_MARQUER_LU.to_owned()) {
        transaction_marquer_lu(gestionnaire, depot, transaction, now)
    } else if action.eq(&constantes::COMMANDE_SUPPRIMER_MESSAGE.to_owned()) {
        transaction_supprimer_message(gestionnaire, depot, transaction)
    } else {
        Err(ErreurDomaine::TransactionInconnue(action.clone()))
    }
}

/// Persists one accepted operation in the append-only log, then applies
/// it through the dispatcher. The log keeps the transaction even when
/// the applier rejects it, so that replay sees the same history.
pub fn sauvegarder_traiter_transaction(
    gestionnaire: &GestionnaireDomaineMessages,
    depot: &mut DepotMessages,
    transaction: TransactionValide,
    now: i64,
) -> (r: Result<(), ErreurDomaine>)
    requires
        old(depot).inv(),
    ensures
        final(depot).inv(),
        final(depot).journal@ == old(depot).journal@.push(transaction),
        match aiguillage_attendu(old(depot).reception@, old(depot).fichiers@, transaction, now) {
            Ok(paire) => r == Ok::<(), ErreurDomaine>(())
                && final(depot).reception@ == paire.0
                && final(depot).fichiers@ == paire.1,
            Err(e) => r == Err::<(), ErreurDomaine>(e)
                && final(depot).reception@ == old(depot).reception@
                && final(depot).fichiers@ == old(depot).fichiers@,
        },
        final(depot).usagers@ == old(depot).usagers@,
{
    let r = aiguillage_transaction(gestionnaire, depot, &transaction, now);
    depot.ajouter_journal(transaction);
    r
}

} // verus!
