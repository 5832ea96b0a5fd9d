use vstd::prelude::*;

use crate::erreurs::ErreurDomaine;
use crate::structures_messages::dupliquer_option_chaine;

verus! {

/// The four increasing trust tiers a certificate may be admitted to.
#[derive(Debug, Clone, Copy, PartialEq, Eq, Structural)]
pub enum Securite {
    L1Public,
    L2Prive,
    L3Protege,
    L4Secure,
}

/// What the authorization check reads of a caller's authenticated certificate: the
/// resolved user identity, whether the certificate carries the private
/// account role, the trust tiers it is admitted to, and whether it holds
/// the global owner delegation.
#[derive(Debug, Clone)]
pub struct Certificat {
    pub user_id: Option<String>,
    pub role_compte_prive: bool,
    pub exchanges: Vec<Securite>,
    pub delegation_globale_proprietaire: bool,
}

/// The certificate is admitted to at least one of the listed tiers.
pub open spec fn echanges_communs(c: Certificat, liste: Seq<Securite>) -> bool {
    exists|i: int, j: int| 0 <= i < c.exchanges@.len() && 0 <= j < liste.len()
        && c.exchanges@[i] == liste[j]
}

/// The certificate is admitted to some trust tier at all. Since the
/// four tiers are the whole scale, this is what admission to any of the
/// four amounts to.
pub open spec fn a_un_echange(c: Certificat) -> bool {
    c.exchanges@.len() > 0
}

impl Certificat {
    /// The user identity the certificate resolves to, when it has one.
    pub fn get_user_id(&self) -> (u: Option<String>)
        ensures
            u == self.user_id,
    {
        dupliquer_option_chaine(&self.user_id)
    }

    /// Whether the certificate is admitted to at least one of the listed
    /// trust tiers.
    pub fn verifier_exchanges(&self, liste: &Vec<Securite>) -> (b: bool)
        ensures
            b == echanges_communs(*self, liste@),
    {
        let n = self.exchanges.len();
        let m = liste.len();
        let mut i: usize = 0;
        while i < n
            invariant
                n == self.exchanges@.len(),
                m == liste@.len(),
                0 <= i <= n,
                forall|k: int, j: int| 0 <= k < i && 0 <= j < m ==> self.exchanges@[k] != liste@[j],
            decreases n - i,
        {
            let mut j: usize = 0;
            while j < m
                invariant
                    n == self.exchanges@.len(),
                    m == liste@.len(),
                    0 <= i < n,
                    0 <= j <= m,
                    forall|l: int| 0 <= l < j ==> self.exchanges@[i as int] != liste@[l],
                decreases m - j,
            {
                if self.exchanges[i] == liste[j] {
                    return true;
                }
                j += 1;
            }
            i += 1;
        }
        false
    }
}

/// The outcome the authorization gate owes for a caller of a command or
/// request, the four rules taken in order, first match winning:
/// a private account with a resolved user, any admitted trust tier, the
/// global owner delegation, and otherwise denial.
pub open spec fn autorisation_attendue(c: Certificat) -> Result<(Option<String>, bool), ErreurDomaine> {
    if c.role_compte_prive && c.user_id is Some {
        Ok((c.user_id, true))
    } else if a_un_echange(c) {
        Ok((c.user_id, c.role_compte_prive))
    } else if c.delegation_globale_proprietaire {
        Ok((c.user_id, c.role_compte_prive))
    } else {
        Err(ErreurDomaine::Autorisation)
    }
}

/// Authorization gate for commands and requests. Runs before any
/// decryption or persistence; a denial drops the message and produces no
/// side effect.
pub fn verifier_autorisation(certificat: &Certificat) -> (r: Result<(Option<String>, bool), ErreurDomaine>)
    ensures
        r == autorisation_attendue(*certificat),
{
    let user_id = certificat.get_user_id();
    let role_prive = certificat.role_compte_prive;

    if role_prive && user_id.is_some() {
        return Ok((user_id, role_prive));
    }

    let tous = vec![Securite::L1Public, Securite::L2Prive, Securite::L3Protege, Securite::L4Secure];
    if certificat.verifier_exchanges(&tous) {
        proof {
            lemma_echange_parmi_tous(*certificat, tous@);
        }
        return Ok((user_id, role_prive));
    }
    proof {
        lemma_echange_parmi_tous(*certificat, tous@);
    }

    if certificat.delegation_globale_proprietaire {
        return Ok((user_id, role_prive));
    }

    Err(ErreurDomaine::Autorisation)
}

/// The outcome the authorization check owes for an event: only system callers, a tier
/// or the owner delegation; a private account alone grants nothing.
pub open spec fn autorisation_evenement_attendue(c: Certificat) -> Result<(), ErreurDomaine> {
    if a_un_echange(c) {
        Ok(())
    } else if c.delegation_globale_proprietaire {
        Ok(())
    } else {
        Err(ErreurDomaine::Autorisation)
    }
}

/// Authorization gate for events.
pub fn verifier_autorisation_evenement(certificat: &Certificat) -> (r: Result<(), ErreurDomaine>)
    ensures
        r == autorisation_evenement_attendue(*certificat),
{
    let tous = vec![Securite::L1Public, Securite::L2Prive, Securite::L3Protege, Securite::L4Secure];
    if certificat.verifier_exchanges(&tous) {
        proof {
            lemma_echange_parmi_tous(*certificat, tous@);
        }
        return Ok(());
    }
    proof {
        lemma_echange_parmi_tous(*certificat, tous@);
    }

    if certificat.delegation_globale_proprietaire {
        return Ok(());
    }

    Err(ErreurDomaine::Autorisation)
}

/// Against the list of all four tiers, sharing a tier is the same as
/// being admitted to any tier at all.
proof fn lemma_echange_parmi_tous(c: Certificat, tous: Seq<Securite>)
    requires
        tous.len() == 4,
        tous[0] == Securite::L1Public,
        tous[1] == Securite::L2Prive,
        tous[2] == Securite::L3Protege,
        tous[3] == Securite::L4Secure,
    ensures
        echanges_communs(c, tous) == a_un_echange(c),
{
    if a_un_echange(c) {
        let e = c.exchanges@[0];
        match e {
            Securite::L1Public => {
                assert(c.exchanges@[0] == tous[0]);
            },
            Securite::L2Prive => {
                assert(c.exchanges@[0] == tous[1]);
            },
            Securite::L3Protege => {
                assert(c.exchanges@[0] == tous[2]);
            },
            Securite::L4Secure => {
                assert(c.exchanges@[0] == tous[3]);
            },
        }
    }
}

} // verus!
