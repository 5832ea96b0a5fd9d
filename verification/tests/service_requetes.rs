use millegrilles_messages::autorisation::{verifier_autorisation, Certificat, Securite};
use millegrilles_messages::depot::DepotMessages;
use millegrilles_messages::domaine_messages::GestionnaireDomaineMessages;
use millegrilles_messages::erreurs::ErreurDomaine;
use millegrilles_messages::messages_bus::{ContenuMessage, MessageValide, RoutageMessage, TypeMessageOut};
use millegrilles_messages::requetes::{
    consommer_requete, requete_dechiffrer_cles, requete_messages_par_ids, requete_sync_messages,
    MessageReponse, MessageSyncInfo, RequeteDechiffrerCles, RequeteMessagesParIds,
    RequeteSyncMessages, SuiteDechiffrerCles, SuiteRequete,
};
use millegrilles_messages::structures_messages::{DataChiffre, MessageDb, MessageDbRef};

fn certificat_usager(user_id: &str) -> Certificat {
    Certificat {
        user_id: Some(user_id.to_string()),
        role_compte_prive: true,
        exchanges: vec![Securite::L2Prive],
        delegation_globale_proprietaire: false,
    }
}

fn rangee(message_id: &str, user_id: &str, cle_id: &str, creation: i64) -> MessageDb {
    MessageDb {
        message_id: message_id.to_string(),
        user_id: user_id.to_string(),
        message: DataChiffre {
            data_chiffre: "x".to_string(),
            format: Some("mgs4".to_string()),
            cle_id: Some(cle_id.to_string()),
            nonce: None,
            verification: None,
        },
        date_traitement: creation,
        lu: false,
        supprime: None,
        bucket: None,
        creation,
        derniere_modification: creation,
    }
}

fn depot_trois_rangees() -> DepotMessages {
    let mut depot = DepotMessages::new();
    depot.reception.push(rangee("m1", "u1", "k1", 300));
    depot.reception.push(rangee("m2", "u1", "k2", 100));
    depot.reception.push(rangee("m3", "u2", "k3", 200));
    depot.reception.push(rangee("m4", "u1", "k1", 100));
    depot
}

#[test]
fn sync_trie_par_creation_puis_insertion() {
    let depot = depot_trois_rangees();
    let certificat = certificat_usager("u1");
    let requete = RequeteSyncMessages { bucket: "reception".to_string(), skip: None, limit: None };
    let rep = requete_sync_messages(&depot, &certificat, &requete).unwrap();
    assert!(rep.ok);
    assert_eq!(rep.bucket, "reception");
    let ids: Vec<&str> = rep.messages.iter().map(|m| m.message_id.as_str()).collect();
    // creation 100 (m2 before m4: insertion order), then 300
    assert_eq!(ids, vec!["m2", "m4", "m1"]);
}

#[test]
fn sync_respecte_skip_et_limit() {
    let depot = depot_trois_rangees();
    let certificat = certificat_usager("u1");
    let requete = RequeteSyncMessages { bucket: "reception".to_string(), skip: Some(1), limit: Some(1) };
    let rep = requete_sync_messages(&depot, &certificat, &requete).unwrap();
    assert_eq!(rep.messages.len(), 1);
    assert_eq!(rep.messages[0].message_id, "m4");
}

#[test]
fn sync_filtre_par_bucket() {
    let mut depot = depot_trois_rangees();
    depot.reception[0].bucket = Some("corbeille".to_string());
    let certificat = certificat_usager("u1");
    let requete = RequeteSyncMessages { bucket: "corbeille".to_string(), skip: None, limit: None };
    let rep = requete_sync_messages(&depot, &certificat, &requete).unwrap();
    assert_eq!(rep.messages.len(), 1);
    assert_eq!(rep.messages[0].message_id, "m1");
    let requete2 = RequeteSyncMessages { bucket: "reception".to_string(), skip: None, limit: None };
    let rep2 = requete_sync_messages(&depot, &certificat, &requete2).unwrap();
    assert_eq!(rep2.messages.len(), 2);
}

#[test]
fn sync_sans_user_id_est_refuse() {
    let depot = depot_trois_rangees();
    let mut certificat = certificat_usager("u1");
    certificat.user_id = None;
    let requete = RequeteSyncMessages { bucket: "reception".to_string(), skip: None, limit: None };
    assert_eq!(
        requete_sync_messages(&depot, &certificat, &requete),
        Err(ErreurDomaine::CertificatSansUserId)
    );
}

#[test]
fn par_ids_ne_livre_que_les_siens() {
    let depot = depot_trois_rangees();
    let certificat = certificat_usager("u1");
    let requete = RequeteMessagesParIds {
        message_ids: vec!["m1".to_string(), "m3".to_string()],
    };
    let rep = requete_messages_par_ids(&depot, &certificat, &requete).unwrap();
    assert!(rep.ok);
    // m3 belongs to u2 and must not come back
    assert_eq!(rep.messages.len(), 1);
    assert_eq!(rep.messages[0].message_id, "m1");
    assert_eq!(rep.messages[0].message.data_chiffre, "x");
}

fn routage_requete(action: &str) -> RoutageMessage {
    RoutageMessage {
        action: action.to_string(),
        reply_to: Some("q.reponse".to_string()),
        correlation_id: Some("corr-1".to_string()),
    }
}

#[test]
fn cles_refusees_sans_possession() {
    // the key exists in the custodian, but the caller owns no record
    // that references it: the request must be refused
    let depot = depot_trois_rangees();
    let certificat = certificat_usager("u2");
    let requete = RequeteDechiffrerCles {
        cle_ids: vec!["k1".to_string(), "k2".to_string()],
        cles_fichiers: None,
    };
    let routage = routage_requete("dechiffrerCles");
    let r = requete_dechiffrer_cles(&depot, &certificat, &routage, &requete).unwrap();
    match r {
        SuiteDechiffrerCles::Refuse => {},
        autre => panic!("attendu Refuse, obtenu {:?}", autre),
    }
}

#[test]
fn cles_transmises_pour_le_proprietaire() {
    let depot = depot_trois_rangees();
    let certificat = certificat_usager("u1");
    let requete = RequeteDechiffrerCles {
        cle_ids: vec!["k1".to_string(), "k3".to_string()],
        cles_fichiers: None,
    };
    let routage = routage_requete("dechiffrerCles");
    let r = requete_dechiffrer_cles(&depot, &certificat, &routage, &requete).unwrap();
    match r {
        SuiteDechiffrerCles::Transmettre(rq) => {
            // k1 is owned through two rows but forwarded once; k3
            // belongs to another user and must not be forwarded
            assert_eq!(rq.cle_ids, vec!["k1".to_string()]);
            assert_eq!(rq.domaine, "Messages");
            assert_eq!(rq.reply_to, "q.reponse");
            assert_eq!(rq.correlation_id, "corr-1");
        },
        autre => panic!("attendu Transmettre, obtenu {:?}", autre),
    }
}

#[test]
fn cles_fichiers_verifiees_sur_les_fichiers() {
    let mut depot = depot_trois_rangees();
    depot.fichiers.push(millegrilles_messages::structures_messages::FichierDb {
        message_id: "m1".to_string(),
        user_id: "u1".to_string(),
        fuuid: "f1".to_string(),
        cle_id: "kf1".to_string(),
        format: "mgs4".to_string(),
        nonce: None,
        verification: None,
        taille_chiffre: 10,
        creation: 100,
        derniere_modification: 100,
    });
    let certificat = certificat_usager("u1");
    let requete = RequeteDechiffrerCles {
        cle_ids: vec!["kf1".to_string(), "k1".to_string()],
        cles_fichiers: Some(true),
    };
    let routage = routage_requete("dechiffrerCles");
    let r = requete_dechiffrer_cles(&depot, &certificat, &routage, &requete).unwrap();
    match r {
        SuiteDechiffrerCles::Transmettre(rq) => {
            // with the file flag, only attachment rows prove ownership
            assert_eq!(rq.cle_ids, vec!["kf1".to_string()]);
        },
        autre => panic!("attendu Transmettre, obtenu {:?}", autre),
    }
}

#[test]
fn requete_sans_reply_to_est_refusee() {
    let depot = depot_trois_rangees();
    let certificat = certificat_usager("u1");
    let requete = RequeteDechiffrerCles { cle_ids: vec!["k1".to_string()], cles_fichiers: None };
    let mut routage = routage_requete("dechiffrerCles");
    routage.reply_to = None;
    assert_eq!(
        requete_dechiffrer_cles(&depot, &certificat, &routage, &requete),
        Err(ErreurDomaine::EntreeMalformee)
    );
}

#[test]
fn consommer_requete_route_et_refuse() {
    let g = GestionnaireDomaineMessages {};
    let depot = depot_trois_rangees();

    // an unknown action is dropped
    let message = MessageValide {
        certificat: certificat_usager("u1"),
        type_message: TypeMessageOut::Requete(routage_requete("reclamations")),
        contenu: ContenuMessage::NonReconnu,
        dechiffrage: None,
        buffer: vec![],
    };
    match consommer_requete(&g, &depot, &message) {
        Err(ErreurDomaine::ActionInconnue(a)) => assert_eq!(a, "reclamations"),
        autre => panic!("attendu ActionInconnue, obtenu {:?}", autre),
    }

    // a request class is demanded
    let message2 = MessageValide {
        certificat: certificat_usager("u1"),
        type_message: TypeMessageOut::Commande(routage_requete("syncMessages")),
        contenu: ContenuMessage::NonReconnu,
        dechiffrage: None,
        buffer: vec![],
    };
    assert_eq!(
        match consommer_requete(&g, &depot, &message2) {
            Err(e) => e,
            Ok(_) => panic!("attendu une erreur"),
        },
        ErreurDomaine::MauvaisTypeMessage
    );

    // the denial of the key disclosure turns into the refusal reply
    let message3 = MessageValide {
        certificat: certificat_usager("u2"),
        type_message: TypeMessageOut::Requete(routage_requete("dechiffrerCles")),
        contenu: ContenuMessage::DechiffrerCles(RequeteDechiffrerCles {
            cle_ids: vec!["k1".to_string()],
            cles_fichiers: None,
        }),
        dechiffrage: None,
        buffer: vec![],
    };
    match consommer_requete(&g, &depot, &message3) {
        Ok(SuiteRequete::Erreur(rep)) => {
            assert!(!rep.ok);
            assert_eq!(rep.code, 1);
            assert_eq!(rep.err, "Acces refuse");
        },
        autre => panic!("attendu le refus, obtenu {:?}", autre),
    }

    // the sync listing is served through the dispatcher
    let message4 = MessageValide {
        certificat: certificat_usager("u1"),
        type_message: TypeMessageOut::Requete(routage_requete("syncMessages")),
        contenu: ContenuMessage::SyncMessages(RequeteSyncMessages {
            bucket: "reception".to_string(),
            skip: None,
            limit: None,
        }),
        dechiffrage: None,
        buffer: vec![],
    };
    match consommer_requete(&g, &depot, &message4) {
        Ok(SuiteRequete::Sync(rep)) => assert_eq!(rep.messages.len(), 3),
        autre => panic!("attendu la liste sync, obtenu {:?}", autre),
    }
}

#[test]
fn gate_applique_les_regles_en_ordre() {
    // private account with a user id
    let c1 = certificat_usager("u1");
    assert_eq!(verifier_autorisation(&c1), Ok((Some("u1".to_string()), true)));

    // no private role, but an admitted tier
    let c2 = Certificat {
        user_id: None,
        role_compte_prive: false,
        exchanges: vec![Securite::L4Secure],
        delegation_globale_proprietaire: false,
    };
    assert_eq!(verifier_autorisation(&c2), Ok((None, false)));

    // only the global owner delegation
    let c3 = Certificat {
        user_id: None,
        role_compte_prive: false,
        exchanges: vec![],
        delegation_globale_proprietaire: true,
    };
    assert_eq!(verifier_autorisation(&c3), Ok((None, false)));

    // nothing at all: denied
    let c4 = Certificat {
        user_id: None,
        role_compte_prive: false,
        exchanges: vec![],
        delegation_globale_proprietaire: false,
    };
    assert_eq!(verifier_autorisation(&c4), Err(ErreurDomaine::Autorisation));

    // a private role without a resolvable user id falls through to the
    // tier rule
    let c5 = Certificat {
        user_id: None,
        role_compte_prive: true,
        exchanges: vec![Securite::L1Public],
        delegation_globale_proprietaire: false,
    };
    assert_eq!(verifier_autorisation(&c5), Ok((None, true)));
}

#[test]
fn conversions_de_projection() {
    let ligne = MessageDbRef {
        message_id: "m9".to_string(),
        derniere_modification: 42,
        date_traitement: 40,
        lu: None,
        supprime: None,
        message: None,
    };
    let info = MessageSyncInfo::from(ligne);
    assert_eq!(info.message_id, "m9");
    assert_eq!(info.derniere_modification, 42);
    // an absent flag reads as not deleted
    assert!(!info.supprime);

    let complet = MessageReponse::from(rangee("m8", "u1", "k1", 55));
    assert_eq!(complet.message_id, "m8");
    assert_eq!(complet.date_traitement, 55);
    assert!(!complet.lu);
    assert!(!complet.supprime);
}
