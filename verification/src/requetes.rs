use vstd::prelude::*;

use crate::autorisation::Certificat;
use crate::depot::{
    contient_id, messages_du_lot, opt_a_vue, possede_cle_fichier, possede_cle_message,
    DepotMessages,
};
use crate::erreurs::ErreurDomaine;
use crate::structures_messages::{DataChiffre, MessageDb, MessageDbRef};

verus! {

// ---------------------------------------------------------------------------
// Request and response bodies
// ---------------------------------------------------------------------------

/// Body of the incremental sync request: the listing partition and the
/// window of rows the client wants.
#[derive(Debug, Clone)]
pub struct RequeteSyncMessages {
    pub bucket: String,
    pub skip: Option<u64>,
    pub limit: Option<i64>,
}

/// One line of the sync listing.
#[derive(Debug, Clone, PartialEq)]
pub struct MessageSyncInfo {
    pub message_id: String,
    pub derniere_modification: i64,
    pub supprime: bool,
}

impl From<MessageDbRef> for MessageSyncInfo {
    fn from(value: MessageDbRef) -> (r: Self) {
        MessageSyncInfo {
            message_id: value.message_id,
            derniere_modification: value.derniere_modification,
            supprime: match value.supprime {
                Some(b) => b,
                None => false,
            },
        }
    }
}

impl vstd::std_specs::convert::FromSpecImpl<MessageDbRef> for MessageSyncInfo {
    open spec fn obeys_from_spec() -> bool {
        true
    }

    open spec fn from_spec(v: MessageDbRef) -> Self {
        MessageSyncInfo {
            message_id: v.message_id,
            derniere_modification: v.derniere_modification,
            supprime: match v.supprime {
                Some(b) => b,
                None => false,
            },
        }
    }
}

/// Reply of the incremental sync request.
#[derive(Debug, Clone, PartialEq)]
pub struct ReponseSyncMessages {
    pub ok: bool,
    pub err: Option<String>,
    pub bucket: String,
    pub messages: Vec<MessageSyncInfo>,
}

/// Body of the bulk fetch request.
#[derive(Debug, Clone)]
pub struct RequeteMessagesParIds {
    pub message_ids: Vec<String>,
}

/// One fully loaded message of the bulk fetch reply, payload included.
#[derive(Debug, Clone, PartialEq)]
pub struct MessageReponse {
    pub message_id: String,
    pub derniere_modification: i64,
    pub date_traitement: i64,
    pub lu: bool,
    pub supprime: bool,
    pub message: DataChiffre,
}

impl From<MessageDb> for MessageReponse {
    fn from(value: MessageDb) -> (r: Self) {
        MessageReponse {
            message_id: value.message_id,
            derniere_modification: value.derniere_modification,
            date_traitement: value.date_traitement,
            lu: value.lu,
            supprime: match value.supprime {
                Some(b) => b,
                None => false,
            },
            message: value.message,
        }
    }
}

impl vstd::std_specs::convert::FromSpecImpl<MessageDb> for MessageReponse {
    open spec fn obeys_from_spec() -> bool {
        true
    }

    open spec fn from_spec(v: MessageDb) -> Self {
        MessageReponse {
            message_id: v.message_id,
            derniere_modification: v.derniere_modification,
            date_traitement: v.date_traitement,
            lu: v.lu,
            supprime: match v.supprime {
                Some(b) => b,
                None => false,
            },
            message: v.message,
        }
    }
}

/// Reply of the bulk fetch request.
#[derive(Debug, Clone, PartialEq)]
pub struct ReponseMessagesParIds {
    pub ok: bool,
    pub err: Option<String>,
    pub messages: Vec<MessageReponse>,
}

/// Body of the key disclosure request: the key ids the caller wants the
/// custodian to re-encrypt for it, and whether they protect attachments
/// rather than message payloads.
#[derive(Debug, Clone)]
pub struct RequeteDechiffrerCles {
    pub cle_ids: Vec<String>,
    pub cles_fichiers: Option<bool>,
}

/// The request this domain forwards to the key custodian, restricted to
/// the key ids the caller proved ownership of. The caller's certificate
/// chain, which the custodian re-encrypts the keys for, travels outside
/// the library: the sending edge holds the raw certificate and attaches
/// it.
#[derive(Debug, Clone, PartialEq)]
pub struct RequeteDechiffrage {
    pub domaine: String,
    pub cle_ids: Vec<String>,
    pub reply_to: String,
    pub correlation_id: String,
}

/// Outcome of the key disclosure request: either the capability check
/// passed for at least one key and the custodian is asked to answer the
/// caller directly, or every requested key failed the check and access
/// is refused.
#[derive(Debug, Clone, PartialEq)]
pub enum SuiteDechiffrerCles {
    Transmettre(RequeteDechiffrage),
    Refuse,
}

// ---------------------------------------------------------------------------
// The sync listing order
// ---------------------------------------------------------------------------

/// The row belongs to the named partition; the reception partition is
/// the rows with no bucket at all.
pub open spec fn bucket_correspond(m: MessageDb, bucket: Seq<char>) -> bool {
    if bucket == "reception"@ {
        m.bucket is None
    } else {
        opt_a_vue(m.bucket, bucket)
    }
}

/// The row appears in the sync listing of this user and partition.
pub open spec fn dans_sync(m: MessageDb, user_id: Seq<char>, bucket: Seq<char>) -> bool {
    m.user_id@ == user_id && bucket_correspond(m, bucket)
}

/// Strict order of the listing: by creation time, then by position in
/// the store, which stands for the order rows were inserted.
pub open spec fn lex_avant(c1: i64, i1: int, c2: i64, i2: int) -> bool {
    c1 < c2 || (c1 == c2 && i1 < i2)
}

/// The index sequence holds some position `k` of the store.
pub open spec fn contient_indice(idx: Seq<int>, k: int) -> bool {
    exists|p: int| 0 <= p < idx.len() && idx[p] == k
}

/// `idx` lists exactly the store positions of the listing, in the
/// listing order. Since the order is strict and total on positions,
/// only one sequence satisfies this.
pub open spec fn indices_sync_tries(idx: Seq<int>, s: Seq<MessageDb>, user_id: Seq<char>, bucket: Seq<char>) -> bool {
    &&& forall|p: int| 0 <= p < idx.len()
        ==> 0 <= #[trigger] idx[p] < s.len() && dans_sync(s[idx[p]], user_id, bucket)
    &&& forall|p: int, q: int| 0 <= p < q < idx.len()
        ==> lex_avant(s[idx[p]].creation, idx[p], s[idx[q]].creation, idx[q])
    &&& forall|k: int| 0 <= k < s.len() && dans_sync(#[trigger] s[k], user_id, bucket)
        ==> contient_indice(idx, k)
}

/// What the listing shows of one row.
pub open spec fn projection_sync(m: MessageDb) -> MessageSyncInfo {
    MessageSyncInfo {
        message_id: m.message_id,
        derniere_modification: m.derniere_modification,
        supprime: match m.supprime {
            Some(b) => b,
            None => false,
        },
    }
}

/// The magnitude of a signed count, as the store treats a negative
/// window limit.
pub open spec fn abs_i64(v: i64) -> int {
    if v >= 0 {
        v as int
    } else {
        -(v as int)
    }
}

/// The reply lists the window `skip..skip+limit` of the user's rows in
/// the named partition, ordered by creation then insertion.
pub open spec fn reponse_sync_conforme(rep: ReponseSyncMessages, s: Seq<MessageDb>, user_id: Seq<char>, requete: RequeteSyncMessages) -> bool {
    let skip = match requete.skip {
        Some(v) => v as int,
        None => 0,
    };
    let limite = match requete.limit {
        Some(v) => abs_i64(v),
        None => 1000,
    };
    &&& rep.ok == true
    &&& rep.err is None
    &&& rep.bucket@ == requete.bucket@
    &&& exists|idx: Seq<int>| {
        let debut = if skip < idx.len() { skip } else { idx.len() as int };
        let compte = if limite < idx.len() - debut { limite } else { idx.len() - debut };
        &&& #[trigger] indices_sync_tries(idx, s, user_id, requete.bucket@)
        &&& rep.messages@.len() == compte
        &&& forall|k: int| 0 <= k < compte
            ==> #[trigger] rep.messages@[k] == projection_sync(s[idx[debut + k]])
    }
}

/// The magnitude of a signed window limit.
fn valeur_absolue(v: i64) -> (r: u64)
    ensures
        r as int == abs_i64(v),
{
    if v >= 0 {
        v as u64
    } else {
        proof {
            assert(-(v as int) <= u64::MAX as int);
        }
        (-(v as i128)) as u64
    }
}

/// First position of the partially built listing whose key, by creation
/// time, exceeds the time of the row being placed.
fn position_insertion(reception: &Vec<MessageDb>, tri: &Vec<usize>, c_new: i64) -> (p: usize)
    requires
        forall|r: int| 0 <= r < tri@.len() ==> #[trigger] tri@[r] < reception@.len(),
    ensures
        p <= tri@.len(),
        forall|r: int| 0 <= r < p ==> reception@[#[trigger] tri@[r] as int].creation <= c_new,
        p < tri@.len() ==> reception@[tri@[p as int] as int].creation > c_new,
{
    let n = tri.len();
    let mut p: usize = 0;
    while p < n
        invariant
            n == tri@.len(),
            0 <= p <= n,
            forall|r: int| 0 <= r < tri@.len() ==> #[trigger] tri@[r] < reception@.len(),
            forall|r: int| 0 <= r < p ==> reception@[#[trigger] tri@[r] as int].creation <= c_new,
        decreases n - p,
    {
        if reception[tri[p]].creation > c_new {
            return p;
        }
        p += 1;
    }
    p
}

/// The partially built listing is strictly ordered: ascending creation
/// time, ties broken by the store position itself.
pub open spec fn indices_tries(reception: Seq<MessageDb>, t: Seq<usize>) -> bool {
    forall|r: int, s2: int| 0 <= r < s2 < t.len()
        ==> lex_avant(
            reception[#[trigger] t[r] as int].creation, t[r] as int,
            reception[#[trigger] t[s2] as int].creation, t[s2] as int)
}

/// Inserting a fresh, highest store position at the first rank whose
/// creation time exceeds its own keeps the listing strictly ordered.
proof fn lemma_insertion_triee(
    reception: Seq<MessageDb>,
    avant: Seq<usize>,
    apres: Seq<usize>,
    pos: int,
    idx: usize,
)
    requires
        0 <= pos <= avant.len(),
        apres == avant.insert(pos, idx),
        idx < reception.len(),
        forall|r: int| 0 <= r < avant.len() ==> #[trigger] avant[r] < reception.len(),
        forall|r: int| 0 <= r < avant.len() ==> #[trigger] avant[r] < idx,
        indices_tries(reception, avant),
        forall|r: int| 0 <= r < pos ==> reception[#[trigger] avant[r] as int].creation <= reception[idx as int].creation,
        pos < avant.len() ==> reception[avant[pos] as int].creation > reception[idx as int].creation,
    ensures
        apres.len() == avant.len() + 1,
        apres[pos] == idx,
        forall|r: int| 0 <= r < pos ==> #[trigger] apres[r] == avant[r],
        forall|r: int| pos < r < apres.len() ==> #[trigger] apres[r] == avant[r - 1],
        indices_tries(reception, apres),
{
    avant.insert_ensures(pos, idx);
    let c_new = reception[idx as int].creation;
    assert forall|r: int, s2: int| 0 <= r < s2 < apres.len()
        implies lex_avant(
            reception[#[trigger] apres[r] as int].creation, apres[r] as int,
            reception[#[trigger] apres[s2] as int].creation, apres[s2] as int) by {
        if s2 == pos {
            assert(apres[r] == avant[r]);
            assert(reception[avant[r] as int].creation <= c_new);
        } else if r == pos {
            assert(apres[s2] == avant[s2 - 1]);
            assert(s2 - 1 >= pos);
            assert(reception[avant[pos] as int].creation > c_new);
            if s2 - 1 > pos {
                assert(lex_avant(
                    reception[avant[pos] as int].creation, avant[pos] as int,
                    reception[avant[s2 - 1] as int].creation, avant[s2 - 1] as int));
            }
        } else if r < pos && s2 > pos {
            assert(apres[r] == avant[r] && apres[s2] == avant[s2 - 1]);
            if r == s2 - 1 {
                assert(false);
            }
        } else if s2 < pos {
            assert(apres[r] == avant[r] && apres[s2] == avant[s2]);
        } else {
            assert(r > pos);
            assert(apres[r] == avant[r - 1] && apres[s2] == avant[s2 - 1]);
        }
    }
}

/// Places each store position at its listing rank: ascending creation
/// time, ties broken by the position itself. Fed with increasing
/// positions, ties keep insertion order. Beside the listing it returns
/// the two witness maps between ranks and feeding positions.
#[verifier::rlimit(100)]
fn trier_indices(reception: &Vec<MessageDb>, indices: &Vec<usize>) -> (res: (Vec<usize>, Ghost<Seq<int>>, Ghost<Seq<int>>))
    requires
        forall|p: int| 0 <= p < indices@.len() ==> #[trigger] indices@[p] < reception@.len(),
        forall|p: int, q: int| 0 <= p < q < indices@.len() ==> indices@[p] < indices@[q],
    ensures
        res.0@.len() == indices@.len(),
        res.1@.len() == res.0@.len(),
        forall|r: int| 0 <= r < res.0@.len()
            ==> 0 <= #[trigger] res.1@[r] < indices@.len() && indices@[res.1@[r]] == res.0@[r],
        res.2@.len() == indices@.len(),
        forall|p: int| 0 <= p < indices@.len()
            ==> 0 <= #[trigger] res.2@[p] < res.0@.len() && res.0@[res.2@[p]] == indices@[p],
        indices_tries(reception@, res.0@),
{
    let t = indices.len();
    let mut tri: Vec<usize> = Vec::new();
    let ghost mut orig: Seq<int> = Seq::empty();
    let ghost mut rang: Seq<int> = Seq::empty();
    let mut q: usize = 0;
    while q < t
        invariant
            t == indices@.len(),
            0 <= q <= t,
            tri@.len() == q,
            orig.len() == q,
            rang.len() == q,
            forall|p: int| 0 <= p < indices@.len() ==> #[trigger] indices@[p] < reception@.len(),
            forall|p: int, q2: int| 0 <= p < q2 < indices@.len() ==> indices@[p] < indices@[q2],
            forall|r: int| 0 <= r < q
                ==> 0 <= #[trigger] orig[r] < q && indices@[orig[r]] == tri@[r],
            forall|p: int| 0 <= p < q
                ==> 0 <= #[trigger] rang[p] < q && tri@[rang[p]] == indices@[p],
            forall|r: int| 0 <= r < q ==> #[trigger] tri@[r] < reception@.len(),
            indices_tries(reception@, tri@),
        decreases t - q,
    {
        let idx = indices[q];
        let c_new = reception[idx].creation;
        let pos = position_insertion(reception, &tri, c_new);
        let ghost tri_avant = tri@;
        let ghost orig_avant = orig;
        let ghost rang_avant = rang;
        tri.insert(pos, idx);
        proof {
            assert forall|r: int| 0 <= r < tri_avant.len() implies #[trigger] tri_avant[r] < idx by {
                assert(indices@[orig_avant[r]] == tri_avant[r]);
                assert(indices@[orig_avant[r]] < indices@[q as int]);
            }
            lemma_insertion_triee(reception@, tri_avant, tri@, pos as int, idx);
            orig = orig_avant.insert(pos as int, q as int);
            orig_avant.insert_ensures(pos as int, q as int);
            rang = Seq::new((q + 1) as nat, |p: int| if p == q as int {
                pos as int
            } else if rang_avant[p] < pos as int {
                rang_avant[p]
            } else {
                rang_avant[p] + 1
            });
            assert forall|r: int| 0 <= r < q + 1
                implies 0 <= #[trigger] orig[r] < q + 1 && indices@[orig[r]] == tri@[r] by {
                if r < pos as int {
                    assert(orig[r] == orig_avant[r] && tri@[r] == tri_avant[r]);
                } else if r == pos as int {
                    assert(orig[r] == q as int && tri@[r] == idx);
                } else {
                    assert(orig[r] == orig_avant[r - 1] && tri@[r] == tri_avant[r - 1]);
                }
            }
            assert forall|p: int| 0 <= p < q + 1
                implies 0 <= #[trigger] rang[p] < q + 1 && tri@[rang[p]] == indices@[p] by {
                if p == q as int {
                    assert(rang[p] == pos as int && tri@[pos as int] == idx);
                } else if rang_avant[p] < pos as int {
                    assert(tri@[rang[p]] == tri_avant[rang_avant[p]]);
                } else {
                    assert(rang[p] == rang_avant[p] + 1);
                    assert(tri@[rang_avant[p] + 1] == tri_avant[rang_avant[p]]);
                }
            }
        }
        q += 1;
    }
    (tri, Ghost(orig), Ghost(rang))
}


/// The store positions of the caller's rows in one partition, in store
/// order.
fn indices_listing(reception: &Vec<MessageDb>, user_id: &String, bucket: &String) -> (indices: Vec<usize>)
    ensures
        forall|p: int| 0 <= p < indices@.len()
            ==> #[trigger] indices@[p] < reception@.len()
                && dans_sync(reception@[indices@[p] as int], user_id@, bucket@),
        forall|p: int, q: int| 0 <= p < q < indices@.len() ==> indices@[p] < indices@[q],
        forall|k: int| 0 <= k < reception@.len() && dans_sync(#[trigger] reception@[k], user_id@, bucket@)
            ==> exists|p: int| 0 <= p < indices@.len() && indices@[p] == k,
{
    let bucket_reception = bucket.eq(&"reception".to_owned());
    let n = reception.len();
    let mut indices: Vec<usize> = Vec::new();
    let mut j: usize = 0;
    while j < n
        invariant
            n == reception@.len(),
            0 <= j <= n,
            bucket_reception == (bucket@ == "reception"@),
            forall|p: int| 0 <= p < indices@.len()
                ==> #[trigger] indices@[p] < j
                    && dans_sync(reception@[indices@[p] as int], user_id@, bucket@),
            forall|p: int, q: int| 0 <= p < q < indices@.len() ==> indices@[p] < indices@[q],
            forall|k: int| 0 <= k < j && dans_sync(#[trigger] reception@[k], user_id@, bucket@)
                ==> exists|p: int| 0 <= p < indices@.len() && indices@[p] == k,
        decreases n - j,
    {
        let m = &reception[j];
        let correspond: bool = if bucket_reception {
            m.bucket.is_none()
        } else {
            match &m.bucket {
                Some(b) => b.eq(bucket),
                None => false,
            }
        };
        assert(correspond == bucket_correspond(reception@[j as int], bucket@));
        let ghost avant = indices@;
        let retenu = m.user_id.eq(user_id) && correspond;
        if retenu {
            indices.push(j);
        }
        proof {
            assert(retenu == dans_sync(reception@[j as int], user_id@, bucket@));
            assert forall|k: int| 0 <= k < j + 1 && dans_sync(#[trigger] reception@[k], user_id@, bucket@)
                implies exists|p: int| 0 <= p < indices@.len() && indices@[p] == k by {
                if k == j as int {
                    assert(indices@ == avant.push(j));
                    assert(indices@[indices@.len() - 1] == k);
                } else {
                    let p = choose|p: int| 0 <= p < avant.len() && avant[p] == k;
                    assert(indices@[p] == k);
                }
            }
        }
        j += 1;
    }
    indices
}

/// Incremental sync listing: the caller's rows of one partition,
/// ordered by creation time then insertion, one window at a time.
#[verifier::rlimit(60)]
pub fn requete_sync_messages(depot: &DepotMessages, certificat: &Certificat, requete: &RequeteSyncMessages) -> (r: Result<ReponseSyncMessages, ErreurDomaine>)
    ensures
        certificat.user_id is None
            ==> r == Err::<ReponseSyncMessages, ErreurDomaine>(ErreurDomaine::CertificatSansUserId),
        certificat.user_id matches Some(u)
            ==> r matches Ok(rep) && reponse_sync_conforme(rep, depot.reception@, u@, *requete),
{
    let user_id = match &certificat.user_id {
        Some(u) => u,
        None => {
            return Err(ErreurDomaine::CertificatSansUserId);
        },
    };
    let skip: u64 = match requete.skip {
        Some(v) => v,
        None => 0,
    };
    let limite: u64 = match requete.limit {
        Some(v) => valeur_absolue(v),
        None => 1000,
    };

    let n = depot.reception.len();
    let indices = indices_listing(&depot.reception, user_id, &requete.bucket);

    // Place each position at its rank: by creation time, insertion
    // order breaking ties, which the increasing positions provide.
    let (tri, orig, rang) = trier_indices(&depot.reception, &indices);

    // The listing is pinned; serve the requested window of it.
    let ghost idx_spec = Seq::new(tri@.len() as nat, |p: int| tri@[p] as int);
    proof {
        assert forall|k: int| 0 <= k < n && dans_sync(#[trigger] depot.reception@[k], user_id@, requete.bucket@)
            implies contient_indice(idx_spec, k) by {
            let p = choose|p: int| 0 <= p < indices@.len() && indices@[p] == k;
            assert(tri@[rang@[p]] == indices@[p]);
            assert(idx_spec[rang@[p]] == k);
        }
        assert forall|p: int| 0 <= p < idx_spec.len()
            implies 0 <= #[trigger] idx_spec[p] < depot.reception@.len()
                && dans_sync(depot.reception@[idx_spec[p]], user_id@, requete.bucket@) by {
            assert(indices@[orig@[p]] == tri@[p]);
            assert(dans_sync(depot.reception@[indices@[orig@[p]] as int], user_id@, requete.bucket@));
        }
        assert(indices_sync_tries(idx_spec, depot.reception@, user_id@, requete.bucket@));
    }
    proof {
        assert forall|r: int| 0 <= r < tri@.len() implies #[trigger] tri@[r] < n by {
            assert(indices@[orig@[r]] == tri@[r]);
        }
    }

    let total = tri.len();
    let debut: usize = if skip >= total as u64 {
        total
    } else {
        skip as usize
    };
    let reste = total - debut;
    let prendre: usize = if limite >= reste as u64 {
        reste
    } else {
        limite as usize
    };

    let mut messages: Vec<MessageSyncInfo> = Vec::new();
    let mut k: usize = 0;
    while k < prendre
        invariant
            0 <= k <= prendre,
            total == tri@.len(),
            debut + prendre <= total,
            n == depot.reception@.len(),
            idx_spec == Seq::new(tri@.len() as nat, |p: int| tri@[p] as int),
            forall|r: int| 0 <= r < tri@.len() ==> #[trigger] tri@[r] < n,
            messages@.len() == k,
            forall|l: int| 0 <= l < k
                ==> #[trigger] messages@[l] == projection_sync(
                    depot.reception@[idx_spec[debut + l]]),
        decreases prendre - k,
    {
        let rangee = &depot.reception[tri[debut + k]];
        let ligne = MessageDbRef {
            message_id: rangee.message_id.clone(),
            derniere_modification: rangee.derniere_modification,
            date_traitement: rangee.date_traitement,
            lu: Some(rangee.lu),
            supprime: rangee.supprime,
            message: None,
        };
        messages.push(MessageSyncInfo::from(ligne));
        k += 1;
    }

    let reponse = ReponseSyncMessages {
        ok: true,
        err: None,
        bucket: requete.bucket.clone(),
        messages,
    };
    proof {
        let skip_s = match requete.skip {
            Some(v) => v as int,
            None => 0,
        };
        let limite_s = match requete.limit {
            Some(v) => abs_i64(v),
            None => 1000,
        };
        let debut_s = if skip_s < idx_spec.len() { skip_s } else { idx_spec.len() as int };
        let compte_s = if limite_s < idx_spec.len() - debut_s { limite_s } else { idx_spec.len() - debut_s };
        assert(debut as int == debut_s);
        assert(prendre as int == compte_s);
    }
    Ok(reponse)
}

/// What the bulk fetch shows of one row.
pub open spec fn projection_reponse(m: MessageDb) -> MessageReponse {
    MessageReponse {
        message_id: m.message_id,
        derniere_modification: m.derniere_modification,
        date_traitement: m.date_traitement,
        lu: m.lu,
        supprime: match m.supprime {
            Some(b) => b,
            None => false,
        },
        message: m.message,
    }
}

/// Bulk fetch: the full rows of the caller that the request names,
/// payload included, in store order.
pub fn requete_messages_par_ids(depot: &DepotMessages, certificat: &Certificat, requete: &RequeteMessagesParIds) -> (r: Result<ReponseMessagesParIds, ErreurDomaine>)
    ensures
        certificat.user_id is None
            ==> r == Err::<ReponseMessagesParIds, ErreurDomaine>(ErreurDomaine::CertificatSansUserId),
        certificat.user_id matches Some(u)
            ==> r matches Ok(rep) && {
                let lot = messages_du_lot(depot.reception@, u@, requete.message_ids@);
                &&& rep.ok == true
                &&& rep.err is None
                &&& rep.messages@.len() == lot.len()
                &&& forall|k: int| 0 <= k < lot.len()
                    ==> #[trigger] rep.messages@[k] == projection_reponse(lot[k])
            },
{
    let user_id = match &certificat.user_id {
        Some(u) => u,
        None => {
            return Err(ErreurDomaine::CertificatSansUserId);
        },
    };
    let lot = depot.messages_par_ids(user_id, &requete.message_ids);
    let nl = lot.len();
    let mut messages: Vec<MessageReponse> = Vec::new();
    let mut k: usize = 0;
    while k < nl
        invariant
            nl == lot@.len(),
            0 <= k <= nl,
            messages@.len() == k,
            forall|l: int| 0 <= l < k
                ==> #[trigger] messages@[l] == projection_reponse(lot@[l]),
        decreases nl - k,
    {
        messages.push(MessageReponse::from(lot[k].dupliquer()));
        k += 1;
    }
    Ok(ReponseMessagesParIds { ok: true, err: None, messages })
}

/// The caller owns the key through the records the flag selects:
/// attachment rows when the request asks for file keys, message rows
/// otherwise.
pub open spec fn cle_possedee_selon(depot: DepotMessages, fichiers: bool, user_id: Seq<char>, cle: Seq<char>) -> bool {
    if fichiers {
        possede_cle_fichier(depot.fichiers@, user_id, cle)
    } else {
        possede_cle_message(depot.reception@, user_id, cle)
    }
}

/// Capability-checked key disclosure: forwards to the custodian only
/// the requested key ids the caller can prove ownership of through its
/// own rows; when it owns none, access is refused and nothing is
/// forwarded.
pub fn requete_dechiffrer_cles(depot: &DepotMessages, certificat: &Certificat, routage: &crate::messages_bus::RoutageMessage, requete: &RequeteDechiffrerCles) -> (r: Result<SuiteDechiffrerCles, ErreurDomaine>)
    ensures
        routage.reply_to is None || routage.correlation_id is None
            ==> r == Err::<SuiteDechiffrerCles, ErreurDomaine>(ErreurDomaine::EntreeMalformee),
        routage.reply_to is Some && routage.correlation_id is Some && certificat.user_id is None
            ==> r == Err::<SuiteDechiffrerCles, ErreurDomaine>(ErreurDomaine::CertificatSansUserId),
        certificat.user_id matches Some(u)
            ==> routage.reply_to is Some && routage.correlation_id is Some
            ==> {
            let fichiers = requete.cles_fichiers == Some(true);
            match r {
                Ok(SuiteDechiffrerCles::Transmettre(rq)) => {
                    &&& rq.domaine@ == crate::constantes::DOMAINE_NOM@
                    &&& rq.reply_to@ == routage.reply_to.unwrap()@
                    &&& rq.correlation_id@ == routage.correlation_id.unwrap()@
                    &&& rq.cle_ids@.len() > 0
                    &&& forall|k: int| 0 <= k < rq.cle_ids@.len()
                        ==> cle_possedee_selon(*depot, fichiers, u@, #[trigger] rq.cle_ids@[k]@)
                            && contient_id(requete.cle_ids@, rq.cle_ids@[k]@)
                    &&& forall|c: int| 0 <= c < requete.cle_ids@.len()
                        && cle_possedee_selon(*depot, fichiers, u@, #[trigger] requete.cle_ids@[c]@)
                        ==> contient_id(rq.cle_ids@, requete.cle_ids@[c]@)
                    &&& forall|k: int, l: int| 0 <= k < l < rq.cle_ids@.len()
                        ==> rq.cle_ids@[k]@ != rq.cle_ids@[l]@
                },
                Ok(SuiteDechiffrerCles::Refuse) => forall|c: int| 0 <= c < requete.cle_ids@.len()
                    ==> !cle_possedee_selon(*depot, fichiers, u@, #[trigger] requete.cle_ids@[c]@),
                Err(_) => false,
            }
        },
{
    let reply_to = match &routage.reply_to {
        Some(inner) => inner,
        None => {
            return Err(ErreurDomaine::EntreeMalformee);
        },
    };
    let correlation_id = match &routage.correlation_id {
        Some(inner) => inner,
        None => {
            return Err(ErreurDomaine::EntreeMalformee);
        },
    };
    let user_id = match &certificat.user_id {
        Some(u) => u,
        None => {
            return Err(ErreurDomaine::CertificatSansUserId);
        },
    };

    let fichiers = match requete.cles_fichiers {
        Some(true) => true,
        _ => false,
    };
    let cles = if fichiers {
        depot.cles_possedees_fichiers(user_id, &requete.cle_ids)
    } else {
        depot.cles_possedees_messages(user_id, &requete.cle_ids)
    };

    if cles.len() > 0 {
        let requete_transmise = RequeteDechiffrage {
            domaine: crate::constantes::DOMAINE_NOM.to_owned(),
            cle_ids: cles,
            reply_to: reply_to.clone(),
            correlation_id: correlation_id.clone(),
        };
        Ok(SuiteDechiffrerCles::Transmettre(requete_transmise))
    } else {
        // none of the requested keys belongs to the caller
        Ok(SuiteDechiffrerCles::Refuse)
    }
}


/// Reply sent when a request is refused without being served.
#[derive(Debug, Clone, PartialEq)]
pub struct ReponseErreur {
    pub ok: bool,
    pub code: usize,
    pub err: String,
}

/// What the request consumer hands back to the bus: a reply to the
/// caller, a request forwarded to the key custodian who will answer the
/// caller directly, or a refusal.
#[derive(Debug, Clone, PartialEq)]
pub enum SuiteRequete {
    Sync(ReponseSyncMessages),
    MessagesParIds(ReponseMessagesParIds),
    TransmettreMaitreDesCles(RequeteDechiffrage),
    Erreur(ReponseErreur),
}

/// Serves one authenticated request: authorization first, then dispatch by
/// action name; an unknown action or a body that does not match its
/// action drops the message with an error.
pub fn consommer_requete(
    _gestionnaire: &crate::domaine_messages::GestionnaireDomaineMessages,
    depot: &DepotMessages,
    message: &crate::messages_bus::MessageValide,
) -> (r: Result<SuiteRequete, ErreurDomaine>)
    ensures
        crate::autorisation::autorisation_attendue(message.certificat) is Err
            ==> r == Err::<SuiteRequete, ErreurDomaine>(ErreurDomaine::Autorisation),
        crate::autorisation::autorisation_attendue(message.certificat) is Ok
            ==> !(message.type_message is Requete)
            ==> r == Err::<SuiteRequete, ErreurDomaine>(ErreurDomaine::MauvaisTypeMessage),
        message.type_message matches crate::messages_bus::TypeMessageOut::Requete(rt)
            ==> crate::autorisation::autorisation_attendue(message.certificat) is Ok
            ==> {
            if rt.action@ == crate::constantes::REQUETE_SYNC_MESSAGES@ {
                match message.contenu {
                    crate::messages_bus::ContenuMessage::SyncMessages(req) => {
                        &&& message.certificat.user_id is None
                            ==> r == Err::<SuiteRequete, ErreurDomaine>(ErreurDomaine::CertificatSansUserId)
                        &&& (message.certificat.user_id matches Some(u)
                            ==> (r matches Ok(SuiteRequete::Sync(rep))
                                && reponse_sync_conforme(rep, depot.reception@, u@, req)))
                    },
                    _ => r == Err::<SuiteRequete, ErreurDomaine>(ErreurDomaine::EntreeMalformee),
                }
            } else if rt.action@ == crate::constantes::REQUETE_MESSAGES_PAR_IDS@ {
                match message.contenu {
                    crate::messages_bus::ContenuMessage::MessagesParIds(req) => {
                        &&& message.certificat.user_id is None
                            ==> r == Err::<SuiteRequete, ErreurDomaine>(ErreurDomaine::CertificatSansUserId)
                        &&& (message.certificat.user_id matches Some(u)
                            ==> (r matches Ok(SuiteRequete::MessagesParIds(rep))
                                && rep.ok == true
                                && rep.messages@.len() == messages_du_lot(depot.reception@, u@, req.message_ids@).len()
                                && (forall|k: int| 0 <= k < rep.messages@.len()
                                    ==> #[trigger] rep.messages@[k] == projection_reponse(
                                        messages_du_lot(depot.reception@, u@, req.message_ids@)[k]))))
                    },
                    _ => r == Err::<SuiteRequete, ErreurDomaine>(ErreurDomaine::EntreeMalformee),
                }
            } else if rt.action@ == crate::constantes::REQUETE_DECHIFFRER_CLES@ {
                match message.contenu {
                    crate::messages_bus::ContenuMessage::DechiffrerCles(req) => {
                        message.certificat.user_id matches Some(u)
                            ==> rt.reply_to is Some && rt.correlation_id is Some
                            ==> {
                            let fichiers = req.cles_fichiers == Some(true);
                            match r {
                                Ok(SuiteRequete::TransmettreMaitreDesCles(rq)) => {
                                    &&& rq.cle_ids@.len() > 0
                                    &&& forall|k: int| 0 <= k < rq.cle_ids@.len()
                                        ==> cle_possedee_selon(*depot, fichiers, u@, #[trigger] rq.cle_ids@[k]@)
                                            && contient_id(req.cle_ids@, rq.cle_ids@[k]@)
                                    &&& forall|c: int| 0 <= c < req.cle_ids@.len()
                                        && cle_possedee_selon(*depot, fichiers, u@, #[trigger] req.cle_ids@[c]@)
                                        ==> contient_id(rq.cle_ids@, req.cle_ids@[c]@)
                                    &&& forall|k: int, l: int| 0 <= k < l < rq.cle_ids@.len()
                                        ==> rq.cle_ids@[k]@ != rq.cle_ids@[l]@
                                },
                                Ok(SuiteRequete::Erreur(rep)) => {
                                    &&& rep.ok == false
                                    &&& rep.code == 1
                                    &&& rep.err@ == "Acces refuse"@
                                    &&& forall|c: int| 0 <= c < req.cle_ids@.len()
                                        ==> !cle_possedee_selon(*depot, fichiers, u@, #[trigger] req.cle_ids@[c]@)
                                },
                                _ => false,
                            }
                        }
                    },
                    _ => r == Err::<SuiteRequete, ErreurDomaine>(ErreurDomaine::EntreeMalformee),
                }
            } else {
                r matches Err(ErreurDomaine::ActionInconnue(a)) && a@ == rt.action@
            }
        },
{
    let (_user_id, _role_prive) = match crate::autorisation::verifier_autorisation(&message.certificat) {
        Ok(inner) => inner,
        Err(e) => {
            return Err(e);
        },
    };

    let routage = match &message.type_message {
        crate::messages_bus::TypeMessageOut::Requete(r) => r,
        _ => {
            return Err(ErreurDomaine::MauvaisTypeMessage);
        },
    };
    let action = &routage.action;

    if action.eq(&crate::constantes::REQUETE_SYNC_MESSAGES.to_owned()) {
        match &message.contenu {
            crate::messages_bus::ContenuMessage::SyncMessages(req) => {
                match requete_sync_messages(depot, &message.certificat, req) {
                    Ok(rep) => Ok(SuiteRequete::Sync(rep)),
                    Err(e) => Err(e),
                }
            },
            _ => Err(ErreurDomaine::EntreeMalformee),
        }
    } else if action.eq(&crate::constantes::REQUETE_MESSAGES_PAR_IDS.to_owned()) {
        match &message.contenu {
            crate::messages_bus::ContenuMessage::MessagesParIds(req) => {
                match requete_messages_par_ids(depot, &message.certificat, req) {
                    Ok(rep) => Ok(SuiteRequete::MessagesParIds(rep)),
                    Err(e) => Err(e),
                }
            },
            _ => Err(ErreurDomaine::EntreeMalformee),
        }
    } else if action.eq(&crate::constantes::REQUETE_DECHIFFRER_CLES.to_owned()) {
        match &message.contenu {
            crate::messages_bus::ContenuMessage::DechiffrerCles(req) => {
                match requete_dechiffrer_cles(depot, &message.certificat, routage, req) {
                    Ok(SuiteDechiffrerCles::Transmettre(rq)) => Ok(SuiteRequete::TransmettreMaitreDesCles(rq)),
                    Ok(SuiteDechiffrerCles::Refuse) => Ok(SuiteRequete::Erreur(ReponseErreur {
                        ok: false,
                        code: 1,
                        err: "Acces refuse".to_owned(),
                    })),
                    Err(e) => Err(e),
                }
            },
            _ => Err(ErreurDomaine::EntreeMalformee),
        }
    } else {
        Err(ErreurDomaine::ActionInconnue(action.clone()))
    }
}


} // verus!
