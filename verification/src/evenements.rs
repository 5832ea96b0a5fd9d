use vstd::prelude::*;

use crate::autorisation::{autorisation_evenement_attendue, verifier_autorisation_evenement};
use crate::constantes;
use crate::erreurs::ErreurDomaine;
use crate::messages_bus::{MessageValide, TypeMessageOut};

verus! {

/// Serves one authenticated event: only system callers may emit one,
/// and the only event this domain accepts is the scheduler tick, which
/// it skips; anything else is dropped with an error.
pub fn consommer_evenement(
    _gestionnaire: &crate::domaine_messages::GestionnaireDomaineMessages,
    message: &MessageValide,
) -> (r: Result<(), ErreurDomaine>)
    ensures
        autorisation_evenement_attendue(message.certificat) is Err
            ==> r == Err::<(), ErreurDomaine>(ErreurDomaine::Autorisation),
        autorisation_evenement_attendue(message.certificat) is Ok
            ==> !(message.type_message is Evenement)
            ==> r == Err::<(), ErreurDomaine>(ErreurDomaine::MauvaisTypeMessage),
        message.type_message matches TypeMessageOut::Evenement(rt)
            ==> autorisation_evenement_attendue(message.certificat) is Ok
            ==> {
            &&& rt.action@ == constantes::EVENEMENT_CEDULE@ ==> r == Ok::<(), ErreurDomaine>(())
            &&& rt.action@ != constantes::EVENEMENT_CEDULE@
                ==> (r matches Err(ErreurDomaine::ActionInconnue(a)) && a@ == rt.action@)
        },
{
    match verifier_autorisation_evenement(&message.certificat) {
        Ok(()) => {},
        Err(e) => {
            return Err(e);
        },
    }

    let routage = match &message.type_message {
        TypeMessageOut::Evenement(r) => r,
        _ => {
            return Err(ErreurDomaine::MauvaisTypeMessage);
        },
    };

    if routage.action.eq(&constantes::EVENEMENT_CEDULE.to_owned()) {
        // scheduler tick: nothing to do
        Ok(())
    } else {
        Err(ErreurDomaine::ActionInconnue(routage.action.clone()))
    }
}

} // verus!
