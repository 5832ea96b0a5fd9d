use vstd::prelude::*;

use crate::constantes;
use crate::depot::DepotMessages;
use crate::erreurs::ErreurDomaine;
use crate::transactions::TransactionValide;

verus! {

/// The domain service handle: names the domain, its queues and its
/// collections, and owns the dispatch of replayed transactions and of
/// the three bus message classes.
#[derive(Clone)]
pub struct GestionnaireDomaineMessages {}

impl GestionnaireDomaineMessages {
    /// The name of this domain on the bus.
    pub fn get_nom_domaine(&self) -> (r: String)
        ensures
            r@ == constantes::DOMAINE_NOM@,
    {
        constantes::DOMAINE_NOM.to_owned()
    }

    /// The collection that persists the transaction log.
    pub fn get_collection_transactions(&self) -> (r: Option<String>)
        ensures
            r matches Some(n) && n@ == constantes::COLLECTION_NOM@,
    {
        Some(constantes::COLLECTION_NOM.to_owned())
    }

    /// The volatile collections of the domain, rebuilt on replay.
    pub fn get_collections_volatiles(&self) -> (r: Result<Vec<String>, ErreurDomaine>)
        ensures
            r matches Ok(liste) && liste@.len() == 2
                && liste@[0]@ == constantes::COLLECTION_RECEPTION_NOM@
                && liste@[1]@ == constantes::COLLECTION_USAGERS_NOM@,
    {
        let mut liste: Vec<String> = Vec::new();
        liste.push(constantes::COLLECTION_RECEPTION_NOM.to_owned());
        liste.push(constantes::COLLECTION_USAGERS_NOM.to_owned());
        Ok(liste)
    }

    /// The queue of volatile messages.
    pub fn get_q_volatils(&self) -> (r: String)
        ensures
            r@ == constantes::QUEUE_VOLATILS_NOM@,
    {
        constantes::QUEUE_VOLATILS_NOM.to_owned()
    }

    /// The queue of triggers.
    pub fn get_q_triggers(&self) -> (r: String)
        ensures
            r@ == constantes::QUEUE_TRIGGERS_NOM@,
    {
        constantes::QUEUE_TRIGGERS_NOM.to_owned()
    }

    /// Dispatches one replayed transaction, as the replay machinery
    /// calls it.
    pub fn aiguillage_transaction(
        &self,
        depot: &mut DepotMessages,
        transaction: &TransactionValide,
        now: i64,
    ) -> (r: Result<(), ErreurDomaine>)
        requires
            old(depot).inv(),
        ensures
            final(depot).inv(),
            match crate::transactions::aiguillage_attendu(
                old(depot).reception@, old(depot).fichiers@, *transaction, now) {
                Ok(paire) => r == Ok::<(), ErreurDomaine>(())
                    && final(depot).reception@ == paire.0
                    && final(depot).fichiers@ == paire.1,
                Err(e) => r == Err::<(), ErreurDomaine>(e)
                    && final(depot).reception@ == old(depot).reception@
                    && final(depot).fichiers@ == old(depot).fichiers@,
            },
            final(depot).usagers@ == old(depot).usagers@,
            final(depot).journal@ == old(depot).journal@,
    {
        crate::transactions::aiguillage_transaction(self, depot, transaction, now)
    }
}

} // verus!
