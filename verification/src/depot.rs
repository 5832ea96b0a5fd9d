use vstd::prelude::*;

use crate::structures_messages::{DataChiffre, FichierDb, MessageDb, ProfilUsagerMessages};
use crate::transactions::{FichierMessage, TransactionValide};

verus! {

/// Some id of the list has this view.
pub open spec fn contient_id(ids: Seq<String>, id: Seq<char>) -> bool {
    exists|k: int| 0 <= k < ids.len() && ids[k]@ == id
}

/// Whether the list holds an id with the view of `id`.
pub fn contient_id_exec(ids: &Vec<String>, id: &String) -> (b: bool)
    ensures
        b == contient_id(ids@, id@),
{
    let n = ids.len();
    let mut k: usize = 0;
    while k < n
        invariant
            n == ids@.len(),
            0 <= k <= n,
            forall|l: int| 0 <= l < k ==> ids@[l]@ != id@,
        decreases n - k,
    {
        if ids[k].eq(id) {
            return true;
        }
        k += 1;
    }
    false
}

// ---------------------------------------------------------------------------
// Membership and uniqueness of the three persisted collections
// ---------------------------------------------------------------------------

/// Some reception row carries this message id.
pub open spec fn contient_message(s: Seq<MessageDb>, id: Seq<char>) -> bool {
    exists|i: int| 0 <= i < s.len() && s[i].message_id@ == id
}

/// No two reception rows share a message id (unique index on `message_id`).
pub open spec fn ids_messages_uniques(s: Seq<MessageDb>) -> bool {
    forall|i: int, j: int| 0 <= i < j < s.len() ==> s[i].message_id@ != s[j].message_id@
}

/// The attachment row matches the upsert key of the attachment store.
pub open spec fn meme_cle_fichier(f: FichierDb, u: Seq<char>, m: Seq<char>, fu: Seq<char>, c: Seq<char>) -> bool {
    f.user_id@ == u && f.message_id@ == m && f.fuuid@ == fu && f.cle_id@ == c
}

/// Some attachment row carries this (user, message, file, key) quadruple.
pub open spec fn contient_fichier(s: Seq<FichierDb>, u: Seq<char>, m: Seq<char>, fu: Seq<char>, c: Seq<char>) -> bool {
    exists|i: int| 0 <= i < s.len() && meme_cle_fichier(s[i], u, m, fu, c)
}

/// No two attachment rows share their upsert key.
pub open spec fn cles_fichiers_uniques(s: Seq<FichierDb>) -> bool {
    forall|i: int, j: int| 0 <= i < j < s.len()
        ==> !meme_cle_fichier(s[j], s[i].user_id@, s[i].message_id@, s[i].fuuid@, s[i].cle_id@)
}

/// Some profile row carries this user id.
pub open spec fn contient_usager(s: Seq<ProfilUsagerMessages>, u: Seq<char>) -> bool {
    exists|i: int| 0 <= i < s.len() && s[i].user_id@ == u
}

/// No two profile rows share a user id (unique index on `user_id`).
pub open spec fn ids_usagers_uniques(s: Seq<ProfilUsagerMessages>) -> bool {
    forall|i: int, j: int| 0 <= i < j < s.len() ==> s[i].user_id@ != s[j].user_id@
}

// ---------------------------------------------------------------------------
// Row constructors and touches, shared by the contracts and the proofs
// ---------------------------------------------------------------------------

/// The reception row as the applier first persists it: content set on
/// insert, unread, not deleted, in the reception bucket.
pub open spec fn nouveau_message(
    message_id: String,
    user_id: String,
    message: DataChiffre,
    date_traitement: i64,
    now: i64,
) -> MessageDb {
    MessageDb {
        message_id,
        user_id,
        message,
        date_traitement,
        lu: false,
        supprime: None,
        bucket: None,
        creation: now,
        derniere_modification: now,
    }
}

/// The same reception row with only its modification time refreshed.
pub open spec fn touche_message(m: MessageDb, now: i64) -> MessageDb {
    MessageDb {
        message_id: m.message_id,
        user_id: m.user_id,
        message: m.message,
        date_traitement: m.date_traitement,
        lu: m.lu,
        supprime: m.supprime,
        bucket: m.bucket,
        creation: m.creation,
        derniere_modification: now,
    }
}

/// The reception store after one set-on-insert upsert keyed by
/// `message_id`: an existing row only gets its modification time
/// refreshed, a missing row is appended with its content.
pub open spec fn upsert_message_spec(
    s: Seq<MessageDb>,
    message_id: String,
    user_id: String,
    message: DataChiffre,
    date_traitement: i64,
    now: i64,
) -> Seq<MessageDb> {
    if contient_message(s, message_id@) {
        let j = choose|j: int| 0 <= j < s.len() && s[j].message_id@ == message_id@;
        s.update(j, touche_message(s[j], now))
    } else {
        s.push(nouveau_message(message_id, user_id, message, date_traitement, now))
    }
}

/// The attachment row as the applier first persists it.
pub open spec fn nouveau_fichier(
    user_id: String,
    message_id: String,
    f: FichierMessage,
    now: i64,
) -> FichierDb {
    FichierDb {
        message_id,
        user_id,
        fuuid: f.fuuid,
        cle_id: f.cle_id,
        format: f.format,
        nonce: f.nonce,
        verification: f.verification,
        taille_chiffre: f.taille_chiffre,
        creation: now,
        derniere_modification: now,
    }
}

/// The same attachment row with only its modification time refreshed.
pub open spec fn touche_fichier(f: FichierDb, now: i64) -> FichierDb {
    FichierDb {
        message_id: f.message_id,
        user_id: f.user_id,
        fuuid: f.fuuid,
        cle_id: f.cle_id,
        format: f.format,
        nonce: f.nonce,
        verification: f.verification,
        taille_chiffre: f.taille_chiffre,
        creation: f.creation,
        derniere_modification: now,
    }
}

/// The attachment store after one set-on-insert upsert keyed by
/// (user, message, file, key).
pub open spec fn upsert_fichier_spec(
    s: Seq<FichierDb>,
    user_id: String,
    message_id: String,
    f: FichierMessage,
    now: i64,
) -> Seq<FichierDb> {
    if contient_fichier(s, user_id@, message_id@, f.fuuid@, f.cle_id@) {
        let j = choose|j: int| 0 <= j < s.len()
            && meme_cle_fichier(s[j], user_id@, message_id@, f.fuuid@, f.cle_id@);
        s.update(j, touche_fichier(s[j], now))
    } else {
        s.push(nouveau_fichier(user_id, message_id, f, now))
    }
}

/// The attachment store after upserting every binding of the list, in
/// order.
pub open spec fn upsert_fichiers_spec(
    s: Seq<FichierDb>,
    user_id: String,
    message_id: String,
    fs: Seq<FichierMessage>,
    now: i64,
) -> Seq<FichierDb>
    decreases fs.len(),
{
    if fs.len() == 0 {
        s
    } else {
        upsert_fichiers_spec(
            upsert_fichier_spec(s, user_id, message_id, fs[0], now),
            user_id,
            message_id,
            fs.drop_first(),
            now,
        )
    }
}

/// A reception row survives a batch delete for `user_id` over `ids` when
/// it belongs to another user or is not named by the batch.
pub open spec fn garder_message(m: MessageDb, user_id: Seq<char>, ids: Seq<String>) -> bool {
    !(m.user_id@ == user_id && contient_id(ids, m.message_id@))
}

/// The survival condition as a predicate value, shared by every contract
/// that speaks of the batch delete.
pub open spec fn pred_garder_message(user_id: Seq<char>, ids: Seq<String>) -> spec_fn(MessageDb) -> bool {
    |m: MessageDb| garder_message(m, user_id, ids)
}

/// The reception store after the batch delete.
pub open spec fn messages_restants(s: Seq<MessageDb>, user_id: Seq<char>, ids: Seq<String>) -> Seq<MessageDb> {
    s.filter(pred_garder_message(user_id, ids))
}

/// An attachment row survives the batch delete under the same condition.
pub open spec fn garder_fichier(f: FichierDb, user_id: Seq<char>, ids: Seq<String>) -> bool {
    !(f.user_id@ == user_id && contient_id(ids, f.message_id@))
}

/// The survival condition of attachment rows as a predicate value.
pub open spec fn pred_garder_fichier(user_id: Seq<char>, ids: Seq<String>) -> spec_fn(FichierDb) -> bool {
    |f: FichierDb| garder_fichier(f, user_id, ids)
}

/// The attachment store after the batch delete.
pub open spec fn fichiers_restants(s: Seq<FichierDb>, user_id: Seq<char>, ids: Seq<String>) -> Seq<FichierDb> {
    s.filter(pred_garder_fichier(user_id, ids))
}

/// The same reception row flagged read, with its modification time
/// refreshed.
pub open spec fn marque_lu(m: MessageDb, now: i64) -> MessageDb {
    MessageDb {
        message_id: m.message_id,
        user_id: m.user_id,
        message: m.message,
        date_traitement: m.date_traitement,
        lu: true,
        supprime: m.supprime,
        bucket: m.bucket,
        creation: m.creation,
        derniere_modification: now,
    }
}

/// The reception store after a batch mark-read for `user_id` over `ids`:
/// only rows owned by the user and named by the batch change.
pub open spec fn marquer_lus_spec(s: Seq<MessageDb>, user_id: Seq<char>, ids: Seq<String>, now: i64) -> Seq<MessageDb> {
    Seq::new(s.len(), |j: int| if s[j].user_id@ == user_id && contient_id(ids, s[j].message_id@) {
        marque_lu(s[j], now)
    } else {
        s[j]
    })
}

/// The profile with its username refreshed from the identity service.
pub open spec fn maj_nom_profil(p: ProfilUsagerMessages, nom: String, now: i64) -> ProfilUsagerMessages {
    ProfilUsagerMessages {
        user_id: p.user_id,
        nom_usager: Some(nom),
        cle_id: p.cle_id,
        derniere_modification: now,
    }
}

/// The profile as it is first created: no key provisioned yet.
pub open spec fn nouveau_profil(user_id: String, nom: String, now: i64) -> ProfilUsagerMessages {
    ProfilUsagerMessages {
        user_id,
        nom_usager: Some(nom),
        cle_id: None,
        derniere_modification: now,
    }
}

/// The profile store after a create-if-absent upsert keyed by `user_id`.
pub open spec fn upsert_profil_spec(s: Seq<ProfilUsagerMessages>, user_id: String, nom: String, now: i64) -> Seq<ProfilUsagerMessages> {
    if contient_usager(s, user_id@) {
        let j = choose|j: int| 0 <= j < s.len() && s[j].user_id@ == user_id@;
        s.update(j, maj_nom_profil(s[j], nom, now))
    } else {
        s.push(nouveau_profil(user_id, nom, now))
    }
}

/// The row the upsert leaves on file for `user_id`.
pub open spec fn profil_apres_upsert(s: Seq<ProfilUsagerMessages>, user_id: String, nom: String, now: i64) -> ProfilUsagerMessages {
    if contient_usager(s, user_id@) {
        let j = choose|j: int| 0 <= j < s.len() && s[j].user_id@ == user_id@;
        maj_nom_profil(s[j], nom, now)
    } else {
        nouveau_profil(user_id, nom, now)
    }
}

/// The profile with its provisioned key recorded.
pub open spec fn pose_cle_profil(p: ProfilUsagerMessages, cle_id: String, now: i64) -> ProfilUsagerMessages {
    ProfilUsagerMessages {
        user_id: p.user_id,
        nom_usager: p.nom_usager,
        cle_id: Some(cle_id),
        derniere_modification: now,
    }
}

/// The profile store after recording a key for `user_id`; unchanged when
/// no such profile is on file.
pub open spec fn enregistrer_cle_spec(s: Seq<ProfilUsagerMessages>, user_id: Seq<char>, cle_id: String, now: i64) -> Seq<ProfilUsagerMessages> {
    if contient_usager(s, user_id) {
        let j = choose|j: int| 0 <= j < s.len() && s[j].user_id@ == user_id;
        s.update(j, pose_cle_profil(s[j], cle_id, now))
    } else {
        s
    }
}

/// How one profile row may lawfully change across a resolution call:
/// its identity never changes; its username may only be refreshed, its
/// key only recorded — neither is ever erased.
pub open spec fn profil_evolue(avant: ProfilUsagerMessages, apres: ProfilUsagerMessages) -> bool {
    &&& apres.user_id@ == avant.user_id@
    &&& (apres.nom_usager == avant.nom_usager || apres.nom_usager is Some)
    &&& (apres.cle_id == avant.cle_id || apres.cle_id is Some)
}

/// Frame of the profile store across a resolution call: it never
/// shrinks, every row survives at its place with its user id, and each
/// row changes only by the username refresh or the key recording.
pub open spec fn usagers_evolues(avant: Seq<ProfilUsagerMessages>, apres: Seq<ProfilUsagerMessages>) -> bool {
    &&& apres.len() >= avant.len()
    &&& forall|k: int| 0 <= k < avant.len() ==> profil_evolue(avant[k], #[trigger] apres[k])
}

/// A create-if-absent upsert respects the profile-store frame.
pub proof fn lemma_upsert_profil_evolue(s: Seq<ProfilUsagerMessages>, user_id: String, nom: String, now: i64)
    ensures
        usagers_evolues(s, upsert_profil_spec(s, user_id, nom, now)),
{
    if contient_usager(s, user_id@) {
        let j = choose|j: int| 0 <= j < s.len() && s[j].user_id@ == user_id@;
        assert(profil_evolue(s[j], maj_nom_profil(s[j], nom, now)));
    }
}

/// Recording a provisioned key respects the profile-store frame.
pub proof fn lemma_enregistrer_cle_evolue(s: Seq<ProfilUsagerMessages>, user_id: Seq<char>, cle_id: String, now: i64)
    ensures
        usagers_evolues(s, enregistrer_cle_spec(s, user_id, cle_id, now)),
{
    if contient_usager(s, user_id) {
        let j = choose|j: int| 0 <= j < s.len() && s[j].user_id@ == user_id;
        assert(profil_evolue(s[j], pose_cle_profil(s[j], cle_id, now)));
    }
}

/// The profile-store frame composes across successive writes.
pub proof fn lemma_evolution_transitive(
    a: Seq<ProfilUsagerMessages>,
    b: Seq<ProfilUsagerMessages>,
    c: Seq<ProfilUsagerMessages>,
)
    requires
        usagers_evolues(a, b),
        usagers_evolues(b, c),
    ensures
        usagers_evolues(a, c),
{
    assert forall|k: int| 0 <= k < a.len() implies profil_evolue(a[k], #[trigger] c[k]) by {
        assert(profil_evolue(a[k], b[k]));
        assert(profil_evolue(b[k], c[k]));
    }
}

/// The frame preserves every user id already on file.
pub proof fn lemma_evolution_preserve_usager(
    a: Seq<ProfilUsagerMessages>,
    b: Seq<ProfilUsagerMessages>,
    u: Seq<char>,
)
    requires
        usagers_evolues(a, b),
        contient_usager(a, u),
    ensures
        contient_usager(b, u),
{
    let j = choose|j: int| 0 <= j < a.len() && a[j].user_id@ == u;
    assert(b[j].user_id@ == u);
}

/// After a create-if-absent upsert, the upserted user is on file.
pub proof fn lemma_upsert_profil_sur_fichier(s: Seq<ProfilUsagerMessages>, user_id: String, nom: String, now: i64)
    ensures
        contient_usager(
            upsert_profil_spec(s, user_id, nom, now),
            profil_apres_upsert(s, user_id, nom, now).user_id@),
{
    let apres = upsert_profil_spec(s, user_id, nom, now);
    if contient_usager(s, user_id@) {
        let j = choose|j: int| 0 <= j < s.len() && s[j].user_id@ == user_id@;
        assert(apres[j].user_id@ == profil_apres_upsert(s, user_id, nom, now).user_id@);
    } else {
        assert(apres[s.len() as int].user_id@ == profil_apres_upsert(s, user_id, nom, now).user_id@);
    }
}

/// The profile answers to one of the requested usernames.
pub open spec fn profil_nomme(p: ProfilUsagerMessages, noms: Seq<String>) -> bool {
    match p.nom_usager {
        Some(n) => contient_id(noms, n@),
        None => false,
    }
}

/// The username condition as a predicate value.
pub open spec fn pred_profil_nomme(noms: Seq<String>) -> spec_fn(ProfilUsagerMessages) -> bool {
    |p: ProfilUsagerMessages| profil_nomme(p, noms)
}

/// The profiles on file whose username the request names.
pub open spec fn profils_selon_noms(s: Seq<ProfilUsagerMessages>, noms: Seq<String>) -> Seq<ProfilUsagerMessages> {
    s.filter(pred_profil_nomme(noms))
}

/// The reception row belongs to the user and is named by the batch.
pub open spec fn message_du_lot(m: MessageDb, user_id: Seq<char>, ids: Seq<String>) -> bool {
    m.user_id@ == user_id && contient_id(ids, m.message_id@)
}

/// The bulk-fetch condition as a predicate value.
pub open spec fn pred_message_du_lot(user_id: Seq<char>, ids: Seq<String>) -> spec_fn(MessageDb) -> bool {
    |m: MessageDb| message_du_lot(m, user_id, ids)
}

/// The reception rows of the user that the bulk fetch names.
pub open spec fn messages_du_lot(s: Seq<MessageDb>, user_id: Seq<char>, ids: Seq<String>) -> Seq<MessageDb> {
    s.filter(pred_message_du_lot(user_id, ids))
}

/// The optional string holds exactly this view.
pub open spec fn opt_a_vue(o: Option<String>, v: Seq<char>) -> bool {
    match o {
        Some(s) => s@ == v,
        None => false,
    }
}

/// The user owns a message encrypted under this key.
pub open spec fn possede_cle_message(s: Seq<MessageDb>, user_id: Seq<char>, cle: Seq<char>) -> bool {
    exists|i: int| 0 <= i < s.len() && s[i].user_id@ == user_id && opt_a_vue(s[i].message.cle_id, cle)
}

/// The user owns an attachment binding under this key.
pub open spec fn possede_cle_fichier(s: Seq<FichierDb>, user_id: Seq<char>, cle: Seq<char>) -> bool {
    exists|i: int| 0 <= i < s.len() && s[i].user_id@ == user_id && s[i].cle_id@ == cle
}

/// Appending one element and filtering equals filtering then appending
/// when the element passes the predicate.
proof fn lemma_filtre_etape<A>(s: Seq<A>, j: int, pred: spec_fn(A) -> bool)
    requires
        0 <= j < s.len(),
    ensures
        pred(s[j]) ==> s.subrange(0, j + 1).filter(pred) == s.subrange(0, j).filter(pred).push(s[j]),
        !pred(s[j]) ==> s.subrange(0, j + 1).filter(pred) == s.subrange(0, j).filter(pred),
{
    reveal(Seq::filter);
    let s1 = s.subrange(0, j + 1);
    assert(s1.drop_last() =~= s.subrange(0, j));
    assert(s1.last() == s[j]);
}

// ---------------------------------------------------------------------------
// The persisted store
// ---------------------------------------------------------------------------

/// The durable state of the domain: delivered messages, attachment key
/// bindings, recipient profiles, and the append-only transaction log.
/// Stands for the document store; rows keep their insertion order.
pub struct DepotMessages {
    pub reception: Vec<MessageDb>,
    pub fichiers: Vec<FichierDb>,
    pub usagers: Vec<ProfilUsagerMessages>,
    pub journal: Vec<TransactionValide>,
}

impl DepotMessages {
    /// The unique indexes the schema declares on the three collections.
    pub open spec fn inv(self) -> bool {
        &&& ids_messages_uniques(self.reception@)
        &&& cles_fichiers_uniques(self.fichiers@)
        &&& ids_usagers_uniques(self.usagers@)
    }

    pub fn new() -> (d: Self)
        ensures
            d.inv(),
            d.reception@ == Seq::<MessageDb>::empty(),
            d.fichiers@ == Seq::<FichierDb>::empty(),
            d.usagers@ == Seq::<ProfilUsagerMessages>::empty(),
            d.journal@ == Seq::<TransactionValide>::empty(),
    {
        DepotMessages {
            reception: Vec::new(),
            fichiers: Vec::new(),
            usagers: Vec::new(),
            journal: Vec::new(),
        }
    }

    /// Set-on-insert upsert of one delivered message, keyed by
    /// `message_id`. Replaying the same insert never overwrites content:
    /// it only refreshes the modification time.
    pub fn upsert_message(
        &mut self,
        message_id: &String,
        user_id: &String,
        message: DataChiffre,
        date_traitement: i64,
        now: i64,
    )
        requires
            old(self).inv(),
        ensures
            final(self).inv(),
            final(self).reception@ == upsert_message_spec(
                old(self).reception@, *message_id, *user_id, message, date_traitement, now),
            final(self).fichiers@ == old(self).fichiers@,
            final(self).usagers@ == old(self).usagers@,
            final(self).journal@ == old(self).journal@,
    {
        let n = self.reception.len();
        let mut i: usize = 0;
        let mut trouve: Option<usize> = None;
        while i < n
            invariant
                n == self.reception@.len(),
                0 <= i <= n,
                match trouve {
                    Some(j) => j < i && self.reception@[j as int].message_id@ == message_id@,
                    None => forall|k: int| 0 <= k < i ==> self.reception@[k].message_id@ != message_id@,
                },
            decreases n - i,
        {
            if trouve.is_none() && self.reception[i].message_id.eq(message_id) {
                trouve = Some(i);
            }
            i += 1;
        }
        match trouve {
            Some(j) => {
                proof {
                    let jj = choose|jj: int| 0 <= jj < self.reception@.len()
                        && self.reception@[jj].message_id@ == message_id@;
                    assert(jj == j as int);
                }
                self.reception[j].derniere_modification = now;
                assert(self.reception@[j as int] == touche_message(old(self).reception@[j as int], now));
            },
            None => {
                assert(!contient_message(self.reception@, message_id@));
                let rangee = MessageDb {
                    message_id: message_id.clone(),
                    user_id: user_id.clone(),
                    message,
                    date_traitement,
                    lu: false,
                    supprime: None,
                    bucket: None,
                    creation: now,
                    derniere_modification: now,
                };
                self.reception.push(rangee);
            },
        }
    }

    /// Set-on-insert upsert of one attachment binding, keyed by
    /// (user, message, file, key).
    pub fn upsert_fichier(&mut self, user_id: &String, message_id: &String, fichier: FichierMessage, now: i64)
        requires
            old(self).inv(),
        ensures
            final(self).inv(),
            final(self).fichiers@ == upsert_fichier_spec(
                old(self).fichiers@, *user_id, *message_id, fichier, now),
            final(self).reception@ == old(self).reception@,
            final(self).usagers@ == old(self).usagers@,
            final(self).journal@ == old(self).journal@,
    {
        let n = self.fichiers.len();
        let mut i: usize = 0;
        let mut trouve: Option<usize> = None;
        while i < n
            invariant
                n == self.fichiers@.len(),
                0 <= i <= n,
                match trouve {
                    Some(j) => j < i && meme_cle_fichier(
                        self.fichiers@[j as int], user_id@, message_id@, fichier.fuuid@, fichier.cle_id@),
                    None => forall|k: int| 0 <= k < i ==> !meme_cle_fichier(
                        self.fichiers@[k], user_id@, message_id@, fichier.fuuid@, fichier.cle_id@),
                },
            decreases n - i,
        {
            if trouve.is_none()
                && self.fichiers[i].user_id.eq(user_id)
                && self.fichiers[i].message_id.eq(message_id)
                && self.fichiers[i].fuuid.eq(&fichier.fuuid)
                && self.fichiers[i].cle_id.eq(&fichier.cle_id) {
                trouve = Some(i);
            }
            i += 1;
        }
        match trouve {
            Some(j) => {
                proof {
                    let jj = choose|jj: int| 0 <= jj < self.fichiers@.len()
                        && meme_cle_fichier(self.fichiers@[jj], user_id@, message_id@, fichier.fuuid@, fichier.cle_id@);
                    assert(jj == j as int);
                }
                self.fichiers[j].derniere_modification = now;
                assert(self.fichiers@[j as int] == touche_fichier(old(self).fichiers@[j as int], now));
            },
            None => {
                assert(!contient_fichier(self.fichiers@, user_id@, message_id@, fichier.fuuid@, fichier.cle_id@));
                let rangee = FichierDb {
                    message_id: message_id.clone(),
                    user_id: user_id.clone(),
                    fuuid: fichier.fuuid,
                    cle_id: fichier.cle_id,
                    format: fichier.format,
                    nonce: fichier.nonce,
                    verification: fichier.verification,
                    taille_chiffre: fichier.taille_chiffre,
                    creation: now,
                    derniere_modification: now,
                };
                self.fichiers.push(rangee);
            },
        }
    }

    /// Batch mark-read: flags every reception row owned by `user_id` whose
    /// id the batch names; every other row, including rows with matching
    /// ids owned by other users, is untouched.
    pub fn marquer_lus(&mut self, user_id: &String, message_ids: &Vec<String>, now: i64)
        requires
            old(self).inv(),
        ensures
            final(self).inv(),
            final(self).reception@ == marquer_lus_spec(
                old(self).reception@, user_id@, message_ids@, now),
            final(self).fichiers@ == old(self).fichiers@,
            final(self).usagers@ == old(self).usagers@,
            final(self).journal@ == old(self).journal@,
    {
        let ghost cible = marquer_lus_spec(old(self).reception@, user_id@, message_ids@, now);
        let n = self.reception.len();
        let mut j: usize = 0;
        while j < n
            invariant
                n == self.reception@.len(),
                n == old(self).reception@.len(),
                0 <= j <= n,
                cible == marquer_lus_spec(old(self).reception@, user_id@, message_ids@, now),
                forall|k: int| 0 <= k < j ==> self.reception@[k] == cible[k],
                forall|k: int| j <= k < n ==> self.reception@[k] == old(self).reception@[k],
                self.fichiers@ == old(self).fichiers@,
                self.usagers@ == old(self).usagers@,
                self.journal@ == old(self).journal@,
            decreases n - j,
        {
            if self.reception[j].user_id.eq(user_id) && contient_id_exec(message_ids, &self.reception[j].message_id) {
                self.reception[j].lu = true;
                self.reception[j].derniere_modification = now;
                assert(self.reception@[j as int] == marque_lu(old(self).reception@[j as int], now));
            }
            j += 1;
        }
        assert(self.reception@ =~= cible);
    }

    /// Batch hard delete: removes every reception row and every attachment
    /// row owned by `user_id` whose message id the batch names; rows of
    /// other users survive even when their ids are named.
    pub fn supprimer_messages(&mut self, user_id: &String, message_ids: &Vec<String>)
        requires
            old(self).inv(),
        ensures
            final(self).inv(),
            final(self).reception@ == messages_restants(
                old(self).reception@, user_id@, message_ids@),
            final(self).fichiers@ == fichiers_restants(
                old(self).fichiers@, user_id@, message_ids@),
            final(self).usagers@ == old(self).usagers@,
            final(self).journal@ == old(self).journal@,
    {
        let ghost pred_m = pred_garder_message(user_id@, message_ids@);
        let n = self.reception.len();
        let mut garde: Vec<MessageDb> = Vec::new();
        let mut j: usize = 0;
        proof {
            assert(old(self).reception@.subrange(0, 0) =~= Seq::<MessageDb>::empty());
            reveal(Seq::filter);
        }
        while j < n
            invariant
                n == self.reception@.len(),
                self.reception@ == old(self).reception@,
                self.fichiers@ == old(self).fichiers@,
                self.usagers@ == old(self).usagers@,
                self.journal@ == old(self).journal@,
                0 <= j <= n,
                garde@ == self.reception@.subrange(0, j as int).filter(pred_m),
                pred_m == pred_garder_message(user_id@, message_ids@),
            decreases n - j,
        {
            proof {
                lemma_filtre_etape(self.reception@, j as int, pred_m);
            }
            let proprietaire = self.reception[j].user_id.eq(user_id);
            let nomme = contient_id_exec(message_ids, &self.reception[j].message_id);
            if !(proprietaire && nomme) {
                garde.push(self.reception[j].dupliquer());
            }
            j += 1;
        }
        proof {
            assert(self.reception@.subrange(0, n as int) =~= self.reception@);
        }
        self.reception = garde;

        let ghost pred_f = pred_garder_fichier(user_id@, message_ids@);
        let nf = self.fichiers.len();
        let mut garde_f: Vec<FichierDb> = Vec::new();
        let mut k: usize = 0;
        proof {
            assert(old(self).fichiers@.subrange(0, 0) =~= Seq::<FichierDb>::empty());
            reveal(Seq::filter);
        }
        while k < nf
            invariant
                nf == self.fichiers@.len(),
                self.fichiers@ == old(self).fichiers@,
                self.reception@ == messages_restants(old(self).reception@, user_id@, message_ids@),
                self.usagers@ == old(self).usagers@,
                self.journal@ == old(self).journal@,
                0 <= k <= nf,
                garde_f@ == self.fichiers@.subrange(0, k as int).filter(pred_f),
                pred_f == pred_garder_fichier(user_id@, message_ids@),
            decreases nf - k,
        {
            proof {
                lemma_filtre_etape(self.fichiers@, k as int, pred_f);
            }
            let proprietaire = self.fichiers[k].user_id.eq(user_id);
            let nomme = contient_id_exec(message_ids, &self.fichiers[k].message_id);
            if !(proprietaire && nomme) {
                garde_f.push(self.fichiers[k].dupliquer());
            }
            k += 1;
        }
        proof {
            assert(self.fichiers@.subrange(0, nf as int) =~= self.fichiers@);
        }
        self.fichiers = garde_f;

        proof {
            lemma_filtre_sous_suite_messages(old(self).reception@, user_id@, message_ids@);
            lemma_filtre_sous_suite_fichiers(old(self).fichiers@, user_id@, message_ids@);
        }
    }

    /// Create-if-absent upsert of a recipient profile keyed by `user_id`,
    /// refreshing the username; returns the row left on file.
    pub fn upsert_profil(&mut self, user_id: &String, nom_usager: &String, now: i64) -> (p: ProfilUsagerMessages)
        requires
            old(self).inv(),
        ensures
            final(self).inv(),
            final(self).usagers@ == upsert_profil_spec(old(self).usagers@, *user_id, *nom_usager, now),
            p == profil_apres_upsert(old(self).usagers@, *user_id, *nom_usager, now),
            final(self).reception@ == old(self).reception@,
            final(self).fichiers@ == old(self).fichiers@,
            final(self).journal@ == old(self).journal@,
    {
        let n = self.usagers.len();
        let mut i: usize = 0;
        let mut trouve: Option<usize> = None;
        while i < n
            invariant
                n == self.usagers@.len(),
                0 <= i <= n,
                match trouve {
                    Some(j) => j < i && self.usagers@[j as int].user_id@ == user_id@,
                    None => forall|k: int| 0 <= k < i ==> self.usagers@[k].user_id@ != user_id@,
                },
            decreases n - i,
        {
            if trouve.is_none() && self.usagers[i].user_id.eq(user_id) {
                trouve = Some(i);
            }
            i += 1;
        }
        match trouve {
            Some(j) => {
                proof {
                    let jj = choose|jj: int| 0 <= jj < self.usagers@.len()
                        && self.usagers@[jj].user_id@ == user_id@;
                    assert(jj == j as int);
                }
                self.usagers[j].nom_usager = Some(nom_usager.clone());
                self.usagers[j].derniere_modification = now;
                assert(self.usagers@[j as int] == maj_nom_profil(old(self).usagers@[j as int], *nom_usager, now));
                self.usagers[j].dupliquer()
            },
            None => {
                assert(!contient_usager(self.usagers@, user_id@));
                let rangee = ProfilUsagerMessages {
                    user_id: user_id.clone(),
                    nom_usager: Some(nom_usager.clone()),
                    cle_id: None,
                    derniere_modification: now,
                };
                let copie = rangee.dupliquer();
                self.usagers.push(rangee);
                copie
            },
        }
    }

    /// Records a freshly provisioned key on the profile of `user_id`.
    /// Returns whether a profile was modified, as the single-row update
    /// of the store reports it.
    pub fn enregistrer_cle_profil(&mut self, user_id: &String, cle_id: &String, now: i64) -> (ok: bool)
        requires
            old(self).inv(),
        ensures
            final(self).inv(),
            ok == contient_usager(old(self).usagers@, user_id@),
            final(self).usagers@ == enregistrer_cle_spec(old(self).usagers@, user_id@, *cle_id, now),
            final(self).reception@ == old(self).reception@,
            final(self).fichiers@ == old(self).fichiers@,
            final(self).journal@ == old(self).journal@,
    {
        let n = self.usagers.len();
        let mut i: usize = 0;
        let mut trouve: Option<usize> = None;
        while i < n
            invariant
                n == self.usagers@.len(),
                0 <= i <= n,
                match trouve {
                    Some(j) => j < i && self.usagers@[j as int].user_id@ == user_id@,
                    None => forall|k: int| 0 <= k < i ==> self.usagers@[k].user_id@ != user_id@,
                },
            decreases n - i,
        {
            if trouve.is_none() && self.usagers[i].user_id.eq(user_id) {
                trouve = Some(i);
            }
            i += 1;
        }
        match trouve {
            Some(j) => {
                proof {
                    let jj = choose|jj: int| 0 <= jj < self.usagers@.len()
                        && self.usagers@[jj].user_id@ == user_id@;
                    assert(jj == j as int);
                }
                self.usagers[j].cle_id = Some(cle_id.clone());
                self.usagers[j].derniere_modification = now;
                assert(self.usagers@[j as int] == pose_cle_profil(old(self).usagers@[j as int], *cle_id, now));
                true
            },
            None => {
                assert(!contient_usager(self.usagers@, user_id@));
                false
            },
        }
    }

    /// Loads the profiles already on file whose username the request
    /// names, in store order.
    pub fn find_usagers_messages(&self, noms_usagers: &Vec<String>) -> (profils: Vec<ProfilUsagerMessages>)
        ensures
            profils@ == profils_selon_noms(self.usagers@, noms_usagers@),
    {
        let ghost pred = pred_profil_nomme(noms_usagers@);
        let n = self.usagers.len();
        let mut garde: Vec<ProfilUsagerMessages> = Vec::new();
        let mut j: usize = 0;
        proof {
            assert(self.usagers@.subrange(0, 0) =~= Seq::<ProfilUsagerMessages>::empty());
            reveal(Seq::filter);
        }
        while j < n
            invariant
                n == self.usagers@.len(),
                0 <= j <= n,
                garde@ == self.usagers@.subrange(0, j as int).filter(pred),
                pred == pred_profil_nomme(noms_usagers@),
            decreases n - j,
        {
            proof {
                lemma_filtre_etape(self.usagers@, j as int, pred);
            }
            let correspond = match &self.usagers[j].nom_usager {
                Some(n) => contient_id_exec(noms_usagers, n),
                None => false,
            };
            if correspond {
                garde.push(self.usagers[j].dupliquer());
            }
            j += 1;
        }
        proof {
            assert(self.usagers@.subrange(0, n as int) =~= self.usagers@);
        }
        garde
    }

    /// Loads the full reception rows of the user that the bulk fetch
    /// names, in store order.
    pub fn messages_par_ids(&self, user_id: &String, message_ids: &Vec<String>) -> (messages: Vec<MessageDb>)
        ensures
            messages@ == messages_du_lot(self.reception@, user_id@, message_ids@),
    {
        let ghost pred = pred_message_du_lot(user_id@, message_ids@);
        let n = self.reception.len();
        let mut garde: Vec<MessageDb> = Vec::new();
        let mut j: usize = 0;
        proof {
            assert(self.reception@.subrange(0, 0) =~= Seq::<MessageDb>::empty());
            reveal(Seq::filter);
        }
        while j < n
            invariant
                n == self.reception@.len(),
                0 <= j <= n,
                garde@ == self.reception@.subrange(0, j as int).filter(pred),
                pred == pred_message_du_lot(user_id@, message_ids@),
            decreases n - j,
        {
            proof {
                lemma_filtre_etape(self.reception@, j as int, pred);
            }
            let proprietaire = self.reception[j].user_id.eq(user_id);
            let nomme = contient_id_exec(message_ids, &self.reception[j].message_id);
            if proprietaire && nomme {
                garde.push(self.reception[j].dupliquer());
            }
            j += 1;
        }
        proof {
            assert(self.reception@.subrange(0, n as int) =~= self.reception@);
        }
        garde
    }

    /// The requested key ids that the user can prove ownership of
    /// through their message rows, each listed once.
    pub fn cles_possedees_messages(&self, user_id: &String, cle_ids: &Vec<String>) -> (cles: Vec<String>)
        ensures
            forall|k: int| 0 <= k < cles@.len()
                ==> possede_cle_message(self.reception@, user_id@, #[trigger] cles@[k]@)
                    && contient_id(cle_ids@, cles@[k]@),
            forall|c: int| 0 <= c < cle_ids@.len()
                && possede_cle_message(self.reception@, user_id@, #[trigger] cle_ids@[c]@)
                ==> contient_id(cles@, cle_ids@[c]@),
            forall|k: int, l: int| 0 <= k < l < cles@.len() ==> cles@[k]@ != cles@[l]@,
    {
        let n = self.reception.len();
        let mut cles: Vec<String> = Vec::new();
        let mut j: usize = 0;
        while j < n
            invariant
                n == self.reception@.len(),
                0 <= j <= n,
                forall|k: int| 0 <= k < cles@.len()
                    ==> possede_cle_message(self.reception@, user_id@, #[trigger] cles@[k]@)
                        && contient_id(cle_ids@, cles@[k]@),
                forall|c: int| 0 <= c < cle_ids@.len()
                    && possede_cle_message(self.reception@.subrange(0, j as int), user_id@, #[trigger] cle_ids@[c]@)
                    ==> contient_id(cles@, cle_ids@[c]@),
                forall|k: int, l: int| 0 <= k < l < cles@.len() ==> cles@[k]@ != cles@[l]@,
            decreases n - j,
        {
            let ghost avant = cles@;
            collecter_cle_message(&mut cles, &self.reception[j], user_id, cle_ids);
            proof {
                assert forall|c: int| 0 <= c < cle_ids@.len()
                    && possede_cle_message(self.reception@.subrange(0, j + 1 as int), user_id@, #[trigger] cle_ids@[c]@)
                    implies contient_id(cles@, cle_ids@[c]@) by {
                    let v = cle_ids@[c]@;
                    let sub = self.reception@.subrange(0, j + 1 as int);
                    let i = choose|i: int| 0 <= i < sub.len() && sub[i].user_id@ == user_id@
                        && opt_a_vue(sub[i].message.cle_id, v);
                    if i < j as int {
                        assert(self.reception@.subrange(0, j as int)[i] == sub[i]);
                        assert(possede_cle_message(self.reception@.subrange(0, j as int), user_id@, v));
                        assert(contient_id(avant, v));
                        let k = choose|k: int| 0 <= k < avant.len() && avant[k]@ == v;
                        assert(cles@[k]@ == v);
                    } else {
                        assert(sub[i] == self.reception@[j as int]);
                        assert(contient_id(cle_ids@, v));
                    }
                }
                assert forall|k: int| 0 <= k < cles@.len()
                    implies possede_cle_message(self.reception@, user_id@, #[trigger] cles@[k]@)
                        && contient_id(cle_ids@, cles@[k]@) by {
                    if k >= avant.len() {
                        assert(avant.len() <= k < cles@.len());
                        assert(opt_a_vue(self.reception@[j as int].message.cle_id, cles@[k]@));
                        assert(self.reception@[j as int].user_id@ == user_id@);
                    } else {
                        assert(cles@[k] == avant[k]);
                        assert(possede_cle_message(self.reception@, user_id@, avant[k]@));
                    }
                }
            }
            j += 1;
        }
        proof {
            assert(self.reception@.subrange(0, n as int) =~= self.reception@);
        }
        cles
    }

    /// The requested key ids that the user can prove ownership of
    /// through their attachment rows, each listed once.
    pub fn cles_possedees_fichiers(&self, user_id: &String, cle_ids: &Vec<String>) -> (cles: Vec<String>)
        ensures
            forall|k: int| 0 <= k < cles@.len()
                ==> possede_cle_fichier(self.fichiers@, user_id@, #[trigger] cles@[k]@)
                    && contient_id(cle_ids@, cles@[k]@),
            forall|c: int| 0 <= c < cle_ids@.len()
                && possede_cle_fichier(self.fichiers@, user_id@, #[trigger] cle_ids@[c]@)
                ==> contient_id(cles@, cle_ids@[c]@),
            forall|k: int, l: int| 0 <= k < l < cles@.len() ==> cles@[k]@ != cles@[l]@,
    {
        let n = self.fichiers.len();
        let mut cles: Vec<String> = Vec::new();
        let mut j: usize = 0;
        while j < n
            invariant
                n == self.fichiers@.len(),
                0 <= j <= n,
                forall|k: int| 0 <= k < cles@.len()
                    ==> possede_cle_fichier(self.fichiers@, user_id@, #[trigger] cles@[k]@)
                        && contient_id(cle_ids@, cles@[k]@),
                forall|c: int| 0 <= c < cle_ids@.len()
                    && possede_cle_fichier(self.fichiers@.subrange(0, j as int), user_id@, #[trigger] cle_ids@[c]@)
                    ==> contient_id(cles@, cle_ids@[c]@),
                forall|k: int, l: int| 0 <= k < l < cles@.len() ==> cles@[k]@ != cles@[l]@,
            decreases n - j,
        {
            let ghost avant = cles@;
            collecter_cle_fichier(&mut cles, &self.fichiers[j], user_id, cle_ids);
            proof {
                assert forall|c: int| 0 <= c < cle_ids@.len()
                    && possede_cle_fichier(self.fichiers@.subrange(0, j + 1 as int), user_id@, #[trigger] cle_ids@[c]@)
                    implies contient_id(cles@, cle_ids@[c]@) by {
                    let v = cle_ids@[c]@;
                    let sub = self.fichiers@.subrange(0, j + 1 as int);
                    let i = choose|i: int| 0 <= i < sub.len() && sub[i].user_id@ == user_id@
                        && sub[i].cle_id@ == v;
                    if i < j as int {
                        assert(self.fichiers@.subrange(0, j as int)[i] == sub[i]);
                        assert(possede_cle_fichier(self.fichiers@.subrange(0, j as int), user_id@, v));
                        assert(contient_id(avant, v));
                        let k = choose|k: int| 0 <= k < avant.len() && avant[k]@ == v;
                        assert(cles@[k]@ == v);
                    } else {
                        assert(sub[i] == self.fichiers@[j as int]);
                        assert(contient_id(cle_ids@, v));
                    }
                }
                assert forall|k: int| 0 <= k < cles@.len()
                    implies possede_cle_fichier(self.fichiers@, user_id@, #[trigger] cles@[k]@)
                        && contient_id(cle_ids@, cles@[k]@) by {
                    if k >= avant.len() {
                        assert(avant.len() <= k < cles@.len());
                        assert(self.fichiers@[j as int].cle_id@ == cles@[k]@);
                        assert(self.fichiers@[j as int].user_id@ == user_id@);
                    } else {
                        assert(cles@[k] == avant[k]);
                        assert(possede_cle_fichier(self.fichiers@, user_id@, avant[k]@));
                    }
                }
            }
            j += 1;
        }
        proof {
            assert(self.fichiers@.subrange(0, n as int) =~= self.fichiers@);
        }
        cles
    }

    /// Appends one accepted transaction to the append-only log.
    pub fn ajouter_journal(&mut self, transaction: TransactionValide)
        requires
            old(self).inv(),
        ensures
            final(self).inv(),
            final(self).journal@ == old(self).journal@.push(transaction),
            final(self).reception@ == old(self).reception@,
            final(self).fichiers@ == old(self).fichiers@,
            final(self).usagers@ == old(self).usagers@,
    {
        self.journal.push(transaction);
    }
}

/// Adds the key of one message row to the collected set when the row
/// belongs to the user, its key is among the requested ids and it is not
/// collected yet.
fn collecter_cle_message(cles: &mut Vec<String>, m: &MessageDb, user_id: &String, cle_ids: &Vec<String>)
    requires
        forall|k: int, l: int| 0 <= k < l < old(cles)@.len() ==> old(cles)@[k]@ != old(cles)@[l]@,
    ensures
        forall|k: int| 0 <= k < old(cles)@.len() ==> final(cles)@[k] == old(cles)@[k],
        old(cles)@.len() <= final(cles)@.len(),
        forall|k: int| old(cles)@.len() <= k < final(cles)@.len()
            ==> m.user_id@ == user_id@
                && opt_a_vue(m.message.cle_id, #[trigger] final(cles)@[k]@)
                && contient_id(cle_ids@, final(cles)@[k]@),
        forall|v: Seq<char>| m.user_id@ == user_id@
            && #[trigger] opt_a_vue(m.message.cle_id, v)
            && contient_id(cle_ids@, v)
            ==> contient_id(final(cles)@, v),
        forall|k: int, l: int| 0 <= k < l < final(cles)@.len() ==> final(cles)@[k]@ != final(cles)@[l]@,
{
    if m.user_id.eq(user_id) {
        match &m.message.cle_id {
            Some(cle) => {
                if contient_id_exec(cle_ids, cle) && !contient_id_exec(cles, cle) {
                    cles.push(cle.clone());
                    assert(cles@[cles@.len() - 1]@ == cle@);
                }
                assert(contient_id(cle_ids@, cle@) ==> contient_id(cles@, cle@));
            },
            None => {},
        }
    }
}

/// Adds the key of one attachment row to the collected set when the row
/// belongs to the user, its key is among the requested ids and it is not
/// collected yet.
fn collecter_cle_fichier(cles: &mut Vec<String>, f: &FichierDb, user_id: &String, cle_ids: &Vec<String>)
    requires
        forall|k: int, l: int| 0 <= k < l < old(cles)@.len() ==> old(cles)@[k]@ != old(cles)@[l]@,
    ensures
        forall|k: int| 0 <= k < old(cles)@.len() ==> final(cles)@[k] == old(cles)@[k],
        old(cles)@.len() <= final(cles)@.len(),
        forall|k: int| old(cles)@.len() <= k < final(cles)@.len()
            ==> f.user_id@ == user_id@
                && f.cle_id@ == #[trigger] final(cles)@[k]@
                && contient_id(cle_ids@, final(cles)@[k]@),
        f.user_id@ == user_id@ && contient_id(cle_ids@, f.cle_id@)
            ==> contient_id(final(cles)@, f.cle_id@),
        forall|k: int, l: int| 0 <= k < l < final(cles)@.len() ==> final(cles)@[k]@ != final(cles)@[l]@,
{
    if f.user_id.eq(user_id) {
        let cle = &f.cle_id;
        if contient_id_exec(cle_ids, cle) && !contient_id_exec(cles, cle) {
            cles.push(cle.clone());
            assert(cles@[cles@.len() - 1]@ == cle@);
        }
        assert(contient_id(cle_ids@, cle@) ==> contient_id(cles@, cle@));
    }
}

/// Every profile the username filter keeps carries a user id on file.
pub proof fn lemma_profils_retenus_sur_fichier(s: Seq<ProfilUsagerMessages>, noms: Seq<String>)
    ensures
        forall|k: int| 0 <= k < profils_selon_noms(s, noms).len()
            ==> contient_usager(s, (#[trigger] profils_selon_noms(s, noms)[k]).user_id@),
{
    let pred = pred_profil_nomme(noms);
    lemma_filtre_contenu(s, pred);
    assert forall|k: int| 0 <= k < profils_selon_noms(s, noms).len()
        implies contient_usager(s, (#[trigger] profils_selon_noms(s, noms)[k]).user_id@) by {
        let j = choose|j: int| 0 <= j < s.len() && s[j] == s.filter(pred)[k];
        assert(s[j].user_id@ == profils_selon_noms(s, noms)[k].user_id@);
    }
}

/// Every element kept by `filter` stands somewhere in the source.
proof fn lemma_filtre_contenu<A>(s: Seq<A>, pred: spec_fn(A) -> bool)
    ensures
        forall|i: int| 0 <= i < s.filter(pred).len()
            ==> exists|k: int| 0 <= k < s.len() && s[k] == #[trigger] s.filter(pred)[i],
    decreases s.len(),
{
    reveal(Seq::filter);
    if s.len() > 0 {
        lemma_filtre_contenu(s.drop_last(), pred);
        let fp = s.drop_last().filter(pred);
        assert forall|i: int| 0 <= i < s.filter(pred).len() implies exists|k: int|
            0 <= k < s.len() && s[k] == #[trigger] s.filter(pred)[i] by {
            if pred(s.last()) && i == s.filter(pred).len() - 1 {
                assert(s[s.len() - 1] == s.filter(pred)[i]);
            } else {
                assert(s.filter(pred)[i] == fp[i]);
                let k = choose|k: int| 0 <= k < s.drop_last().len() && s.drop_last()[k] == fp[i];
                assert(s[k] == s.filter(pred)[i]);
            }
        }
    }
}

/// A subsequence kept by `filter` keeps pairwise-distinct message ids.
proof fn lemma_filtre_sous_suite_messages(s: Seq<MessageDb>, user_id: Seq<char>, ids: Seq<String>)
    requires
        ids_messages_uniques(s),
    ensures
        ids_messages_uniques(messages_restants(s, user_id, ids)),
    decreases s.len(),
{
    reveal(Seq::filter);
    let pred = pred_garder_message(user_id, ids);
    if s.len() > 0 {
        lemma_filtre_sous_suite_messages(s.drop_last(), user_id, ids);
        lemma_filtre_contenu(s.drop_last(), pred);
        let fp = s.drop_last().filter(pred);
        let fs = s.filter(pred);
        assert forall|i: int, j: int| 0 <= i < j < fs.len() implies
            fs[i].message_id@ != fs[j].message_id@ by {
            if j == fs.len() - 1 && pred(s.last()) {
                assert(fs[i] == fp[i]);
                let k = choose|k: int| 0 <= k < s.drop_last().len() && s.drop_last()[k] == fp[i];
                assert(s[k] == fs[i]);
                assert(s[k].message_id@ != s[s.len() - 1].message_id@);
            } else {
                assert(fs[i] == fp[i] && fs[j] == fp[j]);
            }
        }
    }
}

/// A subsequence kept by `filter` keeps pairwise-distinct binding keys.
proof fn lemma_filtre_sous_suite_fichiers(s: Seq<FichierDb>, user_id: Seq<char>, ids: Seq<String>)
    requires
        cles_fichiers_uniques(s),
    ensures
        cles_fichiers_uniques(fichiers_restants(s, user_id, ids)),
    decreases s.len(),
{
    reveal(Seq::filter);
    let pred = pred_garder_fichier(user_id, ids);
    if s.len() > 0 {
        lemma_filtre_sous_suite_fichiers(s.drop_last(), user_id, ids);
        lemma_filtre_contenu(s.drop_last(), pred);
        let fp = s.drop_last().filter(pred);
        let fs = s.filter(pred);
        assert forall|i: int, j: int| 0 <= i < j < fs.len() implies
            !meme_cle_fichier(fs[j], fs[i].user_id@, fs[i].message_id@, fs[i].fuuid@, fs[i].cle_id@) by {
            if j == fs.len() - 1 && pred(s.last()) {
                assert(fs[i] == fp[i]);
                let k = choose|k: int| 0 <= k < s.drop_last().len() && s.drop_last()[k] == fp[i];
                assert(s[k] == fs[i]);
                assert(!meme_cle_fichier(s[s.len() - 1], s[k].user_id@, s[k].message_id@, s[k].fuuid@, s[k].cle_id@));
            } else {
                assert(fs[i] == fp[i] && fs[j] == fp[j]);
            }
        }
    }
}

} // verus!
