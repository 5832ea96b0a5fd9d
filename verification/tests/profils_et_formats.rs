use millegrilles_messages::commandes::{calculer_manquants, format_decimal, reponse_poster};
use millegrilles_messages::depot::DepotMessages;
use millegrilles_messages::structures_messages::ProfilUsagerMessages;

#[test]
fn decimal_ecrit_chaque_compte() {
    assert_eq!(format_decimal(0), "0");
    assert_eq!(format_decimal(7), "7");
    assert_eq!(format_decimal(10), "10");
    assert_eq!(format_decimal(203), "203");
    assert_eq!(format_decimal(18446744073709551615), "18446744073709551615");
}

#[test]
fn reponse_poster_compte_les_destinataires() {
    let pleine = reponse_poster(3, 0);
    assert!(pleine.ok);
    assert_eq!(pleine.code, Some(201));
    assert_eq!(pleine.err, None);

    let partielle = reponse_poster(12, 10);
    assert!(partielle.ok);
    assert_eq!(partielle.code, Some(200));
    assert_eq!(
        partielle.err.as_deref(),
        Some("Message traite pour 12 destinataires. 10 destinataires sont inconnus")
    );
}

#[test]
fn upsert_profil_cree_puis_rafraichit() {
    let mut depot = DepotMessages::new();
    let p1 = depot.upsert_profil(&"u1".to_string(), &"alice".to_string(), 100);
    assert_eq!(p1.user_id, "u1");
    assert_eq!(p1.nom_usager.as_deref(), Some("alice"));
    assert_eq!(p1.cle_id, None);
    assert_eq!(depot.usagers.len(), 1);

    // the same user id keeps one row; the username is refreshed and the
    // provisioned key survives
    assert!(depot.enregistrer_cle_profil(&"u1".to_string(), &"k1".to_string(), 110));
    let p2 = depot.upsert_profil(&"u1".to_string(), &"alicia".to_string(), 120);
    assert_eq!(depot.usagers.len(), 1);
    assert_eq!(p2.nom_usager.as_deref(), Some("alicia"));
    assert_eq!(p2.cle_id.as_deref(), Some("k1"));
    assert_eq!(depot.usagers[0].derniere_modification, 120);
}

#[test]
fn enregistrer_cle_sans_profil_echoue() {
    let mut depot = DepotMessages::new();
    assert!(!depot.enregistrer_cle_profil(&"absent".to_string(), &"k1".to_string(), 100));
    assert_eq!(depot.usagers.len(), 0);
}

#[test]
fn manquants_sont_dedupliques() {
    let profils = vec![ProfilUsagerMessages {
        user_id: "u1".to_string(),
        nom_usager: Some("alice".to_string()),
        cle_id: None,
        derniere_modification: 0,
    }];
    let noms = vec![
        "alice".to_string(),
        "bob".to_string(),
        "bob".to_string(),
        "carol".to_string(),
    ];
    let manquants = calculer_manquants(&noms, &profils);
    assert_eq!(manquants, vec!["bob".to_string(), "carol".to_string()]);
}

#[test]
fn find_usagers_filtre_par_nom() {
    let mut depot = DepotMessages::new();
    depot.upsert_profil(&"u1".to_string(), &"alice".to_string(), 100);
    depot.upsert_profil(&"u2".to_string(), &"bob".to_string(), 100);
    let profils = depot.find_usagers_messages(&vec!["alice".to_string(), "dave".to_string()]);
    assert_eq!(profils.len(), 1);
    assert_eq!(profils[0].user_id, "u1");
}
