use millegrilles_messages::autorisation::{Certificat, Securite};
use millegrilles_messages::domaine_messages::GestionnaireDomaineMessages;
use millegrilles_messages::erreurs::ErreurDomaine;
use millegrilles_messages::evenements::consommer_evenement;
use millegrilles_messages::messages_bus::{ContenuMessage, MessageValide, RoutageMessage, TypeMessageOut};

fn certificat_systeme() -> Certificat {
    Certificat {
        user_id: None,
        role_compte_prive: false,
        exchanges: vec![Securite::L3Protege],
        delegation_globale_proprietaire: false,
    }
}

fn evenement(action: &str, certificat: Certificat) -> MessageValide {
    MessageValide {
        certificat,
        type_message: TypeMessageOut::Evenement(RoutageMessage {
            action: action.to_string(),
            reply_to: None,
            correlation_id: None,
        }),
        contenu: ContenuMessage::NonReconnu,
        dechiffrage: None,
        buffer: vec![],
    }
}

#[test]
fn cedule_est_ignoree() {
    let g = GestionnaireDomaineMessages {};
    let message = evenement("cedule", certificat_systeme());
    assert_eq!(consommer_evenement(&g, &message), Ok(()));
}

#[test]
fn evenement_inconnu_est_abandonne() {
    let g = GestionnaireDomaineMessages {};
    let message = evenement("nouveauMessage", certificat_systeme());
    match consommer_evenement(&g, &message) {
        Err(ErreurDomaine::ActionInconnue(a)) => assert_eq!(a, "nouveauMessage"),
        autre => panic!("attendu ActionInconnue, obtenu {:?}", autre),
    }
}

#[test]
fn evenement_usager_prive_est_refuse() {
    // a private account alone grants nothing for events
    let g = GestionnaireDomaineMessages {};
    let certificat = Certificat {
        user_id: Some("u1".to_string()),
        role_compte_prive: true,
        exchanges: vec![],
        delegation_globale_proprietaire: false,
    };
    let message = evenement("cedule", certificat);
    assert_eq!(consommer_evenement(&g, &message), Err(ErreurDomaine::Autorisation));
}

#[test]
fn gestionnaire_nomme_ses_ressources() {
    let g = GestionnaireDomaineMessages {};
    assert_eq!(g.get_nom_domaine(), "Messages");
    assert_eq!(g.get_collection_transactions(), Some("Messages".to_string()));
    assert_eq!(g.get_q_volatils(), "Messages/volatils");
    assert_eq!(g.get_q_triggers(), "Messages/triggers");
    let volatiles = g.get_collections_volatiles().unwrap();
    assert_eq!(volatiles, vec!["Messages/reception".to_string(), "Messages/usagers".to_string()]);
}
