use vstd::prelude::*;

use crate::constantes;
use crate::depot::{
    contient_fichier, contient_message, garder_message, ids_messages_uniques,
    marquer_lus_spec, messages_restants, touche_fichier, touche_message,
    upsert_fichier_spec, upsert_fichiers_spec, upsert_message_spec,
};
use crate::erreurs::ErreurDomaine;
use crate::structures_messages::{FichierDb, MessageDb};
use crate::transactions::{
    action_de, aiguillage_attendu, fichiers_de, ContenuTransaction, FichierMessage,
    TransactionValide,
};

verus! {

/// Across a replay at one server time, the attachment store keeps the
/// same rows in place; at most their modification times are refreshed.
pub open spec fn fichiers_conserves(avant: Seq<FichierDb>, apres: Seq<FichierDb>, now: i64) -> bool {
    &&& apres.len() == avant.len()
    &&& forall|k: int| 0 <= k < avant.len()
        ==> #[trigger] apres[k] == avant[k] || apres[k] == touche_fichier(avant[k], now)
}

/// After an upsert, the store holds a row under the binding's key.
proof fn lemma_upsert_fichier_contient(s: Seq<FichierDb>, u: String, id: String, f: FichierMessage, now: i64)
    ensures
        contient_fichier(upsert_fichier_spec(s, u, id, f, now), u@, id@, f.fuuid@, f.cle_id@),
{
    let apres = upsert_fichier_spec(s, u, id, f, now);
    if contient_fichier(s, u@, id@, f.fuuid@, f.cle_id@) {
        let j = choose|j: int| 0 <= j < s.len()
            && crate::depot::meme_cle_fichier(s[j], u@, id@, f.fuuid@, f.cle_id@);
        assert(crate::depot::meme_cle_fichier(apres[j], u@, id@, f.fuuid@, f.cle_id@));
    } else {
        assert(crate::depot::meme_cle_fichier(apres[s.len() as int], u@, id@, f.fuuid@, f.cle_id@));
    }
}

/// An upsert never loses a key already on file.
proof fn lemma_upsert_fichier_preserve_contient(
    s: Seq<FichierDb>, u: String, id: String, f: FichierMessage, now: i64,
    u2: Seq<char>, m2: Seq<char>, fu2: Seq<char>, c2: Seq<char>,
)
    requires
        contient_fichier(s, u2, m2, fu2, c2),
    ensures
        contient_fichier(upsert_fichier_spec(s, u, id, f, now), u2, m2, fu2, c2),
{
    let apres = upsert_fichier_spec(s, u, id, f, now);
    let j0 = choose|j0: int| 0 <= j0 < s.len() && crate::depot::meme_cle_fichier(s[j0], u2, m2, fu2, c2);
    assert(crate::depot::meme_cle_fichier(apres[j0], u2, m2, fu2, c2));
}

/// Every key of a folded batch is on file afterwards.
proof fn lemma_fold_preserve_contient(
    s: Seq<FichierDb>, u: String, id: String, fs: Seq<FichierMessage>, now: i64,
    u2: Seq<char>, m2: Seq<char>, fu2: Seq<char>, c2: Seq<char>,
)
    requires
        contient_fichier(s, u2, m2, fu2, c2),
    ensures
        contient_fichier(upsert_fichiers_spec(s, u, id, fs, now), u2, m2, fu2, c2),
    decreases fs.len(),
{
    if fs.len() > 0 {
        lemma_upsert_fichier_preserve_contient(s, u, id, fs[0], now, u2, m2, fu2, c2);
        lemma_fold_preserve_contient(
            upsert_fichier_spec(s, u, id, fs[0], now), u, id, fs.drop_first(), now,
            u2, m2, fu2, c2);
    }
}

/// After folding a batch of bindings, each binding's key is on file.
proof fn lemma_fold_fichiers_contient(s: Seq<FichierDb>, u: String, id: String, fs: Seq<FichierMessage>, now: i64)
    ensures
        forall|e: int| 0 <= e < fs.len()
            ==> contient_fichier(upsert_fichiers_spec(s, u, id, fs, now),
                u@, id@, (#[trigger] fs[e]).fuuid@, fs[e].cle_id@),
    decreases fs.len(),
{
    if fs.len() > 0 {
        let s1 = upsert_fichier_spec(s, u, id, fs[0], now);
        lemma_upsert_fichier_contient(s, u, id, fs[0], now);
        lemma_fold_preserve_contient(s1, u, id, fs.drop_first(), now,
            u@, id@, fs[0].fuuid@, fs[0].cle_id@);
        lemma_fold_fichiers_contient(s1, u, id, fs.drop_first(), now);
        assert forall|e: int| 0 <= e < fs.len()
            implies contient_fichier(upsert_fichiers_spec(s, u, id, fs, now),
                u@, id@, (#[trigger] fs[e]).fuuid@, fs[e].cle_id@) by {
            if e > 0 {
                assert(fs.drop_first()[e - 1] == fs[e]);
            }
        }
    }
}

/// One more upsert of a binding whose key the first pass already put on
/// file only refreshes a modification time.
proof fn lemma_refichier_conserve(
    reference: Seq<FichierDb>, courant: Seq<FichierDb>,
    u: String, id: String, f: FichierMessage, now: i64,
)
    requires
        fichiers_conserves(reference, courant, now),
        contient_fichier(reference, u@, id@, f.fuuid@, f.cle_id@),
    ensures
        fichiers_conserves(reference, upsert_fichier_spec(courant, u, id, f, now), now),
{
    let j0 = choose|j0: int| 0 <= j0 < reference.len()
        && crate::depot::meme_cle_fichier(reference[j0], u@, id@, f.fuuid@, f.cle_id@);
    assert(crate::depot::meme_cle_fichier(courant[j0], u@, id@, f.fuuid@, f.cle_id@));
    assert(contient_fichier(courant, u@, id@, f.fuuid@, f.cle_id@));
    let apres = upsert_fichier_spec(courant, u, id, f, now);
    let j = choose|j: int| 0 <= j < courant.len()
        && crate::depot::meme_cle_fichier(courant[j], u@, id@, f.fuuid@, f.cle_id@);
    assert(apres == courant.update(j, touche_fichier(courant[j], now)));
    assert forall|k: int| 0 <= k < reference.len()
        implies #[trigger] apres[k] == reference[k] || apres[k] == touche_fichier(reference[k], now) by {
        if k == j {
            if courant[j] == touche_fichier(reference[j], now) {
                assert(touche_fichier(courant[j], now) == touche_fichier(reference[j], now));
            }
        }
    }
}

/// Folding the same batch a second time at one server time only
/// refreshes modification times.
proof fn lemma_fold_fichiers_conserve(
    reference: Seq<FichierDb>, courant: Seq<FichierDb>,
    u: String, id: String, fs: Seq<FichierMessage>, now: i64,
)
    requires
        fichiers_conserves(reference, courant, now),
        forall|e: int| 0 <= e < fs.len()
            ==> contient_fichier(reference, u@, id@, (#[trigger] fs[e]).fuuid@, fs[e].cle_id@),
    ensures
        fichiers_conserves(reference, upsert_fichiers_spec(courant, u, id, fs, now), now),
    decreases fs.len(),
{
    if fs.len() > 0 {
        lemma_refichier_conserve(reference, courant, u, id, fs[0], now);
        let courant1 = upsert_fichier_spec(courant, u, id, fs[0], now);
        assert forall|e: int| 0 <= e < fs.drop_first().len()
            implies contient_fichier(reference, u@, id@,
                (#[trigger] fs.drop_first()[e]).fuuid@, fs.drop_first()[e].cle_id@) by {
            assert(fs.drop_first()[e] == fs[e + 1]);
        }
        lemma_fold_fichiers_conserve(reference, courant1, u, id, fs.drop_first(), now);
    }
}

/// A set-on-insert upsert leaves a row for its id on file, touches
/// nothing but that row's modification time when the id already exists,
/// and keeps the ids pairwise distinct.
pub proof fn lemma_upsert_message(
    s: Seq<MessageDb>,
    message_id: String,
    user_id: String,
    message: crate::structures_messages::DataChiffre,
    date: i64,
    now: i64,
)
    requires
        ids_messages_uniques(s),
    ensures
        ids_messages_uniques(upsert_message_spec(s, message_id, user_id, message, date, now)),
        contient_message(upsert_message_spec(s, message_id, user_id, message, date, now), message_id@),
        // a fresh id grows the store by exactly one row; a replayed id
        // grows it by none
        !contient_message(s, message_id@)
            ==> upsert_message_spec(s, message_id, user_id, message, date, now).len() == s.len() + 1,
        contient_message(s, message_id@)
            ==> upsert_message_spec(s, message_id, user_id, message, date, now).len() == s.len(),
{
    let s1 = upsert_message_spec(s, message_id, user_id, message, date, now);
    if contient_message(s, message_id@) {
        let j = choose|j: int| 0 <= j < s.len() && s[j].message_id@ == message_id@;
        assert(s1[j].message_id@ == message_id@);
        assert(forall|k: int| 0 <= k < s.len() && k != j ==> s1[k] == s[k]);
    } else {
        assert(s1[s.len() as int].message_id@ == message_id@);
    }
}

/// Idempotent receipt: applying the same receive-message transaction
/// twice leaves exactly one message row for its id, with unchanged
/// content; the second pass only advances modification times.
pub proof fn loi_recette_idempotente(
    reception: Seq<MessageDb>,
    fichiers: Seq<FichierDb>,
    t: TransactionValide,
    n1: i64,
    n2: i64,
)
    requires
        ids_messages_uniques(reception),
        action_de(t) == Some(constantes::COMMANDE_POSTER_V1@),
        t.contenu matches ContenuTransaction::RecevoirMessage(_),
    ensures
        aiguillage_attendu(reception, fichiers, t, n1) is Ok,
        ({
            let r1 = aiguillage_attendu(reception, fichiers, t, n1)->Ok_0.0;
            let f1 = aiguillage_attendu(reception, fichiers, t, n1)->Ok_0.1;
            let deux = aiguillage_attendu(r1, f1, t, n2);
            &&& deux is Ok
            &&& deux->Ok_0.0.len() == r1.len()
            // exactly one row carries the id of the transaction
            &&& contient_message(r1, t.id@)
            &&& ids_messages_uniques(r1)
            // replay only advances the modification time of that row
            &&& forall|k: int| 0 <= k < r1.len() && r1[k].message_id@ == t.id@
                ==> deux->Ok_0.0[k] == touche_message(r1[k], n2)
            // every other row is untouched
            &&& forall|k: int| 0 <= k < r1.len() && r1[k].message_id@ != t.id@
                ==> deux->Ok_0.0[k] == r1[k]
            // the attachment bindings stay in place too, their content
            // intact, at most their modification times refreshed
            &&& fichiers_conserves(f1, deux->Ok_0.1, n2)
        }),
{
    let m = t.contenu->RecevoirMessage_0;
    lemma_upsert_message(reception, t.id, m.user_id, m.message, t.estampille, n1);
    let r1 = upsert_message_spec(reception, t.id, m.user_id, m.message, t.estampille, n1);
    let r2 = upsert_message_spec(r1, t.id, m.user_id, m.message, t.estampille, n2);
    let j = choose|j: int| 0 <= j < r1.len() && r1[j].message_id@ == t.id@;
    assert(r2 == r1.update(j, touche_message(r1[j], n2)));
    assert forall|k: int| 0 <= k < r1.len() && r1[k].message_id@ == t.id@ implies r2[k]
        == touche_message(r1[k], n2) by {
        assert(k == j);
    }
    let f1 = upsert_fichiers_spec(fichiers, m.user_id, t.id, fichiers_de(m), n1);
    lemma_fold_fichiers_contient(fichiers, m.user_id, t.id, fichiers_de(m), n1);
    lemma_fold_fichiers_conserve(f1, f1, m.user_id, t.id, fichiers_de(m), n2);
}

/// Ownership isolation for mark-read: a batch issued by one user leaves
/// every row of every other user exactly as it was, whatever ids the
/// batch names.
pub proof fn loi_isolation_marquer_lu(
    reception: Seq<MessageDb>,
    user_id: Seq<char>,
    ids: Seq<String>,
    now: i64,
)
    ensures
        marquer_lus_spec(reception, user_id, ids, now).len() == reception.len(),
        forall|k: int| 0 <= k < reception.len() && reception[k].user_id@ != user_id
            ==> marquer_lus_spec(reception, user_id, ids, now)[k] == reception[k],
{
}

/// Ownership isolation for delete-message: a batch issued by one user
/// removes none of the rows of other users; each survives the delete,
/// at its place in the remaining order.
pub proof fn loi_isolation_supprimer(
    reception: Seq<MessageDb>,
    fichiers: Seq<FichierDb>,
    user_id: Seq<char>,
    ids: Seq<String>,
)
    ensures
        forall|k: int| 0 <= k < reception.len() && reception[k].user_id@ != user_id
            ==> messages_restants(reception, user_id, ids).contains(reception[k]),
        forall|k: int| 0 <= k < messages_restants(reception, user_id, ids).len()
            ==> garder_message(#[trigger] messages_restants(reception, user_id, ids)[k], user_id, ids),
        forall|k: int| 0 <= k < fichiers.len() && fichiers[k].user_id@ != user_id
            ==> crate::depot::fichiers_restants(fichiers, user_id, ids).contains(fichiers[k]),
{
    let pred = crate::depot::pred_garder_message(user_id, ids);
    assert forall|k: int| 0 <= k < reception.len() && reception[k].user_id@ != user_id
        implies messages_restants(reception, user_id, ids).contains(reception[k]) by {
        assert(pred(reception[k]));
        reception.lemma_filter_contains(pred, k);
    }
    assert forall|k: int| 0 <= k < messages_restants(reception, user_id, ids).len()
        implies garder_message(#[trigger] messages_restants(reception, user_id, ids)[k], user_id, ids) by {
        reception.lemma_filter_pred(pred, k);
    }
    let pred_f = crate::depot::pred_garder_fichier(user_id, ids);
    assert forall|k: int| 0 <= k < fichiers.len() && fichiers[k].user_id@ != user_id
        implies crate::depot::fichiers_restants(fichiers, user_id, ids).contains(fichiers[k]) by {
        assert(pred_f(fichiers[k]));
        fichiers.lemma_filter_contains(pred_f, k);
    }
}

/// Partial delivery accounting: applying a batch of receive-message
/// transactions whose ids are fresh and pairwise distinct creates
/// exactly one message row per transaction, and the ids stay pairwise
/// distinct. With the post command's contract — one logged
/// receive-message transaction per recipient served, the stores being
/// their application — this pins the row count of a fan-out.
pub proof fn loi_comptage_livraisons(
    reception: Seq<MessageDb>,
    fichiers: Seq<FichierDb>,
    entrees: Seq<TransactionValide>,
    now: i64,
    reception1: Seq<MessageDb>,
    fichiers1: Seq<FichierDb>,
)
    requires
        ids_messages_uniques(reception),
        crate::transactions::etats_suivent_journal(
            reception, fichiers, entrees, now, reception1, fichiers1),
        forall|j: int| 0 <= j < entrees.len()
            ==> !contient_message(reception, (#[trigger] entrees[j]).id@),
        forall|j: int, l: int| 0 <= j < l < entrees.len() ==> entrees[j].id@ != entrees[l].id@,
        forall|j: int| 0 <= j < entrees.len()
            ==> action_de(#[trigger] entrees[j]) == Some(constantes::COMMANDE_POSTER_V1@)
                && entrees[j].contenu is RecevoirMessage,
    ensures
        reception1.len() == reception.len() + entrees.len(),
        ids_messages_uniques(reception1),
    decreases entrees.len(),
{
    if entrees.len() > 0 {
        let t = entrees[0];
        let m = t.contenu->RecevoirMessage_0;
        match aiguillage_attendu(reception, fichiers, t, now) {
            Ok(paire) => {
                assert(!contient_message(reception, t.id@));
                assert(paire.0 == reception.push(crate::depot::nouveau_message(
                    t.id, m.user_id, m.message, t.estampille, now)));
                lemma_upsert_message(reception, t.id, m.user_id, m.message, t.estampille, now);
                let reste = entrees.drop_first();
                assert forall|j: int| 0 <= j < reste.len()
                    implies !contient_message(paire.0, (#[trigger] reste[j]).id@) by {
                    assert(reste[j] == entrees[j + 1]);
                    if contient_message(paire.0, reste[j].id@) {
                        let i = choose|i: int| 0 <= i < paire.0.len()
                            && paire.0[i].message_id@ == reste[j].id@;
                        if i < reception.len() {
                            assert(contient_message(reception, entrees[j + 1].id@));
                        } else {
                            assert(paire.0[i].message_id@ == t.id@);
                        }
                    }
                }
                assert(forall|j: int| 0 <= j < reste.len() ==> #[trigger] reste[j] == entrees[j + 1]);
                loi_comptage_livraisons(paire.0, paire.1, reste, now, reception1, fichiers1);
            },
            Err(_) => {
                assert(false);
            },
        }
    }
}

/// Replay halt: a transaction whose action this domain does not
/// recognise makes the applier fail loudly with the unrecognised name;
/// it is never silently skipped.
pub proof fn loi_arret_rejeu(
    reception: Seq<MessageDb>,
    fichiers: Seq<FichierDb>,
    t: TransactionValide,
    now: i64,
)
    requires
        action_de(t) is Some,
        action_de(t) != Some(constantes::COMMANDE_POSTER_V1@),
        action_de(t) != Some(constantes::COMMANDE_MARQUER_LU@),
        action_de(t) != Some(constantes::COMMANDE_SUPPRIMER_MESSAGE@),
    ensures
        aiguillage_attendu(reception, fichiers, t, now)
            == Err::<(Seq<MessageDb>, Seq<FichierDb>), ErreurDomaine>(
                ErreurDomaine::TransactionInconnue(t.routage.unwrap().action.unwrap())),
{
}

} // verus!
