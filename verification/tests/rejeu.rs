use millegrilles_messages::depot::DepotMessages;
use millegrilles_messages::domaine_messages::GestionnaireDomaineMessages;
use millegrilles_messages::erreurs::ErreurDomaine;
use millegrilles_messages::structures_messages::DataChiffre;
use millegrilles_messages::transactions::{
    aiguillage_transaction, ContenuTransaction, FichierMessage, RoutageTransaction,
    TransactionMarquerLu, TransactionRecevoirMessage, TransactionSupprimerMessage,
    TransactionValide,
};

fn payload(cle_id: &str) -> DataChiffre {
    DataChiffre {
        data_chiffre: "abc123".to_string(),
        format: Some("mgs4".to_string()),
        cle_id: Some(cle_id.to_string()),
        nonce: Some("nonce".to_string()),
        verification: Some("tag".to_string()),
    }
}

fn routage(action: &str) -> Option<RoutageTransaction> {
    Some(RoutageTransaction { action: Some(action.to_string()) })
}

fn transaction_recevoir(id: &str, user_id: &str, cle_id: &str, estampille: i64) -> TransactionValide {
    let fichier = FichierMessage {
        fuuid: "f1".to_string(),
        taille_chiffre: 1234,
        cle_id: cle_id.to_string(),
        format: "mgs4".to_string(),
        nonce: Some("nf".to_string()),
        verification: Some("vf".to_string()),
    };
    TransactionValide {
        id: id.to_string(),
        routage: routage("posterV1"),
        estampille,
        contenu: ContenuTransaction::RecevoirMessage(TransactionRecevoirMessage::new(
            user_id.to_string(),
            payload(cle_id),
            Some(vec![fichier]),
        )),
        user_id: None,
    }
}

#[test]
fn recevoir_cree_une_rangee() {
    let g = GestionnaireDomaineMessages {};
    let mut depot = DepotMessages::new();
    let t = transaction_recevoir("m1", "u1", "k1", 100);
    assert!(aiguillage_transaction(&g, &mut depot, &t, 110).is_ok());
    assert_eq!(depot.reception.len(), 1);
    let rangee = &depot.reception[0];
    assert_eq!(rangee.message_id, "m1");
    assert_eq!(rangee.user_id, "u1");
    assert_eq!(rangee.date_traitement, 100);
    assert!(!rangee.lu);
    assert_eq!(rangee.creation, 110);
    assert_eq!(rangee.derniere_modification, 110);
    assert_eq!(depot.fichiers.len(), 1);
    assert_eq!(depot.fichiers[0].fuuid, "f1");
    assert_eq!(depot.fichiers[0].message_id, "m1");
    assert_eq!(depot.fichiers[0].taille_chiffre, 1234);
}

#[test]
fn recevoir_deux_fois_est_idempotent() {
    let g = GestionnaireDomaineMessages {};
    let mut depot = DepotMessages::new();
    let t = transaction_recevoir("m1", "u1", "k1", 100);
    assert!(aiguillage_transaction(&g, &mut depot, &t, 110).is_ok());
    assert!(aiguillage_transaction(&g, &mut depot, &t, 120).is_ok());
    // exactly one row, content untouched, only the modification time
    // advanced
    assert_eq!(depot.reception.len(), 1);
    let rangee = &depot.reception[0];
    assert_eq!(rangee.message_id, "m1");
    assert_eq!(rangee.user_id, "u1");
    assert_eq!(rangee.message.data_chiffre, "abc123");
    assert_eq!(rangee.date_traitement, 100);
    assert!(!rangee.lu);
    assert_eq!(rangee.creation, 110);
    assert_eq!(rangee.derniere_modification, 120);
    // the attachment binding is not duplicated either
    assert_eq!(depot.fichiers.len(), 1);
    assert_eq!(depot.fichiers[0].creation, 110);
    assert_eq!(depot.fichiers[0].derniere_modification, 120);
}

#[test]
fn marquer_lu_flagge_les_siens() {
    let g = GestionnaireDomaineMessages {};
    let mut depot = DepotMessages::new();
    let t1 = transaction_recevoir("m1", "u1", "k1", 100);
    let t2 = transaction_recevoir("m2", "u2", "k2", 100);
    aiguillage_transaction(&g, &mut depot, &t1, 100).unwrap();
    aiguillage_transaction(&g, &mut depot, &t2, 100).unwrap();

    let lu = TransactionValide {
        id: "t3".to_string(),
        routage: routage("marquerLu"),
        estampille: 150,
        contenu: ContenuTransaction::MarquerLu(TransactionMarquerLu {
            message_ids: vec!["m1".to_string(), "m2".to_string()],
        }),
        user_id: Some("u1".to_string()),
    };
    assert!(aiguillage_transaction(&g, &mut depot, &lu, 150).is_ok());
    // the caller's row is flagged, the other user's row is untouched
    assert!(depot.reception[0].lu);
    assert_eq!(depot.reception[0].derniere_modification, 150);
    assert!(!depot.reception[1].lu);
    assert_eq!(depot.reception[1].derniere_modification, 100);
}

#[test]
fn supprimer_isole_les_proprietaires() {
    let g = GestionnaireDomaineMessages {};
    let mut depot = DepotMessages::new();
    aiguillage_transaction(&g, &mut depot, &transaction_recevoir("m1", "u1", "k1", 100), 100).unwrap();
    aiguillage_transaction(&g, &mut depot, &transaction_recevoir("m2", "u2", "k2", 100), 100).unwrap();

    let supprimer = TransactionValide {
        id: "t3".to_string(),
        routage: routage("supprimerMessage"),
        estampille: 160,
        contenu: ContenuTransaction::SupprimerMessage(TransactionSupprimerMessage {
            message_ids: vec!["m1".to_string(), "m2".to_string()],
        }),
        user_id: Some("u1".to_string()),
    };
    assert!(aiguillage_transaction(&g, &mut depot, &supprimer, 160).is_ok());
    // the batch names both ids; only the issuing user's rows go, and
    // their attachment bindings with them
    assert_eq!(depot.reception.len(), 1);
    assert_eq!(depot.reception[0].message_id, "m2");
    assert_eq!(depot.reception[0].user_id, "u2");
    assert_eq!(depot.fichiers.len(), 1);
    assert_eq!(depot.fichiers[0].message_id, "m2");
}

#[test]
fn action_inconnue_arrete_le_rejeu() {
    let g = GestionnaireDomaineMessages {};
    let mut depot = DepotMessages::new();
    let mut t = transaction_recevoir("m1", "u1", "k1", 100);
    t.routage = routage("associerImages");
    let r = aiguillage_transaction(&g, &mut depot, &t, 100);
    match r {
        Err(ErreurDomaine::TransactionInconnue(action)) => assert_eq!(action, "associerImages"),
        autre => panic!("attendu TransactionInconnue, obtenu {:?}", autre),
    }
    assert_eq!(depot.reception.len(), 0);
    assert_eq!(depot.fichiers.len(), 0);
}

#[test]
fn transaction_sans_routage_est_refusee() {
    let g = GestionnaireDomaineMessages {};
    let mut depot = DepotMessages::new();
    let mut t = transaction_recevoir("m1", "u1", "k1", 100);
    t.routage = None;
    assert_eq!(
        aiguillage_transaction(&g, &mut depot, &t, 100),
        Err(ErreurDomaine::TransactionSansAction)
    );
    let mut t2 = transaction_recevoir("m1", "u1", "k1", 100);
    t2.routage = Some(RoutageTransaction { action: None });
    assert_eq!(
        aiguillage_transaction(&g, &mut depot, &t2, 100),
        Err(ErreurDomaine::TransactionSansAction)
    );
}

#[test]
fn corps_depareille_est_refuse() {
    let g = GestionnaireDomaineMessages {};
    let mut depot = DepotMessages::new();
    // a mark-read body under the receive action cannot be applied
    let t = TransactionValide {
        id: "t1".to_string(),
        routage: routage("posterV1"),
        estampille: 100,
        contenu: ContenuTransaction::MarquerLu(TransactionMarquerLu { message_ids: vec![] }),
        user_id: Some("u1".to_string()),
    };
    assert_eq!(
        aiguillage_transaction(&g, &mut depot, &t, 100),
        Err(ErreurDomaine::EntreeMalformee)
    );
}

#[test]
fn marquer_lu_sans_user_id_est_refuse() {
    let g = GestionnaireDomaineMessages {};
    let mut depot = DepotMessages::new();
    let t = TransactionValide {
        id: "t1".to_string(),
        routage: routage("marquerLu"),
        estampille: 100,
        contenu: ContenuTransaction::MarquerLu(TransactionMarquerLu {
            message_ids: vec!["m1".to_string()],
        }),
        user_id: None,
    };
    assert_eq!(
        aiguillage_transaction(&g, &mut depot, &t, 100),
        Err(ErreurDomaine::CertificatSansUserId)
    );
}

#[test]
fn journal_garde_chaque_transaction() {
    let g = GestionnaireDomaineMessages {};
    let mut depot = DepotMessages::new();
    let t = transaction_recevoir("m1", "u1", "k1", 100);
    millegrilles_messages::transactions::sauvegarder_traiter_transaction(&g, &mut depot, t, 100)
        .unwrap();
    assert_eq!(depot.journal.len(), 1);
    assert_eq!(depot.journal[0].id, "m1");
    assert_eq!(depot.reception.len(), 1);
}
