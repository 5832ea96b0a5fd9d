use millegrilles_messages::autorisation::{Certificat, Securite};
use millegrilles_messages::commandes::{
    consommer_commande, ChiffrageSortie, CleGeneree, CleSecrete, CompteUsager, Middleware,
    MessagePostV1, ReponseCommande, ReponseDechiffrageMessage, ReponseRequeteDechiffrageV2,
    ReponseUsersMaitredescomptes, ResultatRequeteDistante, CleSecreteRecue,
    CommandeAjouterCleDomaine,
};
use millegrilles_messages::depot::DepotMessages;
use millegrilles_messages::domaine_messages::GestionnaireDomaineMessages;
use millegrilles_messages::erreurs::ErreurDomaine;
use millegrilles_messages::messages_bus::{
    CleChiffree, ContenuMessage, DataDechiffrage, MessageValide, RoutageMessage, TypeMessageOut,
};
use millegrilles_messages::structures_messages::ProfilUsagerMessages;

/// In-memory stand-in for the bus, the custodian, the identity service
/// and the cipher, with each behaviour settable per test.
struct MiddlewareTest {
    /// the custodian fails within its bound instead of answering
    custodian_indisponible: bool,
    /// the custodian answers, but without any key inside
    reponse_cle_vide: bool,
    /// accounts the identity service resolves
    comptes: Vec<(String, String)>,
    /// whether the custodian can serve profile keys by id
    cles_profil_servies: bool,
    /// whether key registration is acknowledged
    enregistrement_accepte: bool,
    /// the decrypted post command hidden in the envelope
    message_clair: MessagePostV1,
    /// counter for fresh transaction ids
    prochain_id: u64,
}

impl MiddlewareTest {
    fn nouveau(message_clair: MessagePostV1) -> Self {
        MiddlewareTest {
            custodian_indisponible: false,
            reponse_cle_vide: false,
            comptes: vec![],
            cles_profil_servies: true,
            enregistrement_accepte: true,
            message_clair,
            prochain_id: 0,
        }
    }
}

impl Middleware for MiddlewareTest {
    fn get_fingerprint(&mut self) -> String {
        "fp-local".to_string()
    }

    fn dechiffrer_cle_locale(&mut self, _cle_chiffree: &String) -> Result<CleSecrete, ErreurDomaine> {
        Ok(CleSecrete([1u8; 32]))
    }

    fn transmettre_requete_dechiffrage_message(
        &mut self,
        _dechiffrage: &DataDechiffrage,
    ) -> ResultatRequeteDistante<ReponseDechiffrageMessage> {
        if self.custodian_indisponible {
            ResultatRequeteDistante::Echec
        } else if self.reponse_cle_vide {
            ResultatRequeteDistante::Valide(ReponseDechiffrageMessage {
                ok: false,
                err: Some("indisponible".to_string()),
                cle_secrete: None,
            })
        } else {
            ResultatRequeteDistante::Valide(ReponseDechiffrageMessage {
                ok: true,
                err: None,
                cle_secrete: Some(CleSecrete([2u8; 32])),
            })
        }
    }

    fn dechiffrer_message(
        &mut self,
        _cle: &CleSecrete,
        _buffer: &Vec<u8>,
    ) -> Result<MessagePostV1, ErreurDomaine> {
        Ok(self.message_clair.clone())
    }

    fn transmettre_requete_cle_profil(
        &mut self,
        cle_id: &String,
    ) -> ResultatRequeteDistante<ReponseRequeteDechiffrageV2> {
        if self.cles_profil_servies {
            ResultatRequeteDistante::Valide(ReponseRequeteDechiffrageV2 {
                ok: true,
                err: None,
                cles: Some(vec![CleSecreteRecue {
                    cle_id: cle_id.clone(),
                    cle_secrete: CleSecrete([3u8; 32]),
                }]),
            })
        } else {
            ResultatRequeteDistante::Echec
        }
    }

    fn transmettre_requete_comptes(
        &mut self,
        noms_usagers: &Vec<String>,
    ) -> Option<ReponseUsersMaitredescomptes> {
        let usagers: Vec<CompteUsager> = self
            .comptes
            .iter()
            .filter(|(nom, _)| noms_usagers.contains(nom))
            .map(|(nom, user_id)| CompteUsager {
                nom_usager: nom.clone(),
                user_id: user_id.clone(),
            })
            .collect();
        Some(ReponseUsersMaitredescomptes { usagers })
    }

    fn generer_cle(&mut self) -> Result<CleGeneree, ErreurDomaine> {
        self.prochain_id += 1;
        Ok(CleGeneree {
            cle_id: format!("cle-generee-{}", self.prochain_id),
            cle: CleSecrete([4u8; 32]),
            cles: vec![CleChiffree {
                fingerprint: "fp-mdc".to_string(),
                cle: "enveloppe".to_string(),
            }],
            signature: "sig".to_string(),
        })
    }

    fn transmettre_commande_cle(
        &mut self,
        _commande: &CommandeAjouterCleDomaine,
    ) -> Option<ReponseCommande> {
        if self.enregistrement_accepte {
            Some(ReponseCommande { ok: Some(true), err: None })
        } else {
            Some(ReponseCommande { ok: Some(false), err: None })
        }
    }

    fn chiffrer_message(
        &mut self,
        _cle: &CleSecrete,
        message: &MessagePostV1,
    ) -> Result<ChiffrageSortie, ErreurDomaine> {
        Ok(ChiffrageSortie {
            data_chiffre: format!("chiffre({})", message.contenu),
            format: "mgs4".to_string(),
            nonce: Some("nonce".to_string()),
            verification: Some("tag".to_string()),
        })
    }

    fn nouvelle_transaction_id(&mut self) -> String {
        self.prochain_id += 1;
        format!("txn-{}", self.prochain_id)
    }

    fn maintenant(&mut self) -> i64 {
        1000
    }
}

fn message_clair(destinataires: Vec<&str>) -> MessagePostV1 {
    MessagePostV1 {
        contenu: "bonjour".to_string(),
        destinataires: destinataires.iter().map(|s| s.to_string()).collect(),
        reply_to: None,
        date_post: Some(900),
        origine: None,
        fichiers: None,
    }
}

fn enveloppe_poster(certificat: Certificat) -> MessageValide {
    MessageValide {
        certificat,
        type_message: TypeMessageOut::Commande(RoutageMessage {
            action: "posterV1".to_string(),
            reply_to: None,
            correlation_id: None,
        }),
        contenu: ContenuMessage::Chiffre,
        dechiffrage: Some(DataDechiffrage {
            cles: Some(vec![CleChiffree {
                fingerprint: "fp-autre".to_string(),
                cle: "cle-chiffree".to_string(),
            }]),
            format: Some("mgs4".to_string()),
            nonce: Some("n".to_string()),
            verification: Some("v".to_string()),
        }),
        buffer: vec![1, 2, 3],
    }
}

fn certificat_prive() -> Certificat {
    Certificat {
        user_id: Some("expediteur".to_string()),
        role_compte_prive: true,
        exchanges: vec![Securite::L1Public],
        delegation_globale_proprietaire: false,
    }
}

fn profil(user_id: &str, nom: &str, cle_id: Option<&str>) -> ProfilUsagerMessages {
    ProfilUsagerMessages {
        user_id: user_id.to_string(),
        nom_usager: Some(nom.to_string()),
        cle_id: cle_id.map(|s| s.to_string()),
        derniere_modification: 0,
    }
}

#[test]
fn livraison_partielle_compte_les_inconnus() {
    // recipients [A, B, C] where B is unknown: exactly two rows, code
    // 200, and the notice counts one unknown recipient
    let g = GestionnaireDomaineMessages {};
    let mut depot = DepotMessages::new();
    depot.usagers.push(profil("uA", "alice", Some("kA")));
    depot.usagers.push(profil("uC", "carol", Some("kC")));
    let mut middleware = MiddlewareTest::nouveau(message_clair(vec!["alice", "bob", "carol"]));
    let message = enveloppe_poster(certificat_prive());

    let rep = consommer_commande(&g, &mut middleware, &mut depot, &message).unwrap();
    assert!(rep.ok);
    assert_eq!(rep.code, Some(200));
    assert_eq!(
        rep.err.as_deref(),
        Some("Message traite pour 2 destinataires. 1 destinataires sont inconnus")
    );
    assert_eq!(depot.reception.len(), 2);
    let proprietaires: Vec<&str> = depot.reception.iter().map(|m| m.user_id.as_str()).collect();
    assert_eq!(proprietaires, vec!["uA", "uC"]);
    // each copy is tagged with its recipient's own key
    assert_eq!(depot.reception[0].message.cle_id.as_deref(), Some("kA"));
    assert_eq!(depot.reception[1].message.cle_id.as_deref(), Some("kC"));
    // the journal holds exactly the two deliveries, as receive-message
    // transactions of this invocation
    assert_eq!(depot.journal.len(), 2);
    for entree in &depot.journal {
        assert_eq!(
            entree.routage.as_ref().unwrap().action.as_deref(),
            Some("posterV1")
        );
        assert_eq!(entree.estampille, 1000);
        assert!(matches!(
            entree.contenu,
            millegrilles_messages::transactions::ContenuTransaction::RecevoirMessage(_)
        ));
    }
}

#[test]
fn aucun_destinataire_connu_est_un_succes_vide() {
    let g = GestionnaireDomaineMessages {};
    let mut depot = DepotMessages::new();
    let mut middleware = MiddlewareTest::nouveau(message_clair(vec!["bob"]));
    let message = enveloppe_poster(certificat_prive());

    let rep = consommer_commande(&g, &mut middleware, &mut depot, &message).unwrap();
    assert!(rep.ok);
    assert_eq!(rep.code, Some(1));
    assert_eq!(rep.err.as_deref(), Some("Destinataires inconnus"));
    assert_eq!(depot.reception.len(), 0);
    assert_eq!(depot.journal.len(), 0);
}

#[test]
fn silence_du_maitre_des_cles_est_un_echec_doux() {
    let g = GestionnaireDomaineMessages {};
    let mut depot = DepotMessages::new();
    depot.usagers.push(profil("uA", "alice", Some("kA")));
    let mut middleware = MiddlewareTest::nouveau(message_clair(vec!["alice"]));
    middleware.custodian_indisponible = true;
    let message = enveloppe_poster(certificat_prive());

    let rep = consommer_commande(&g, &mut middleware, &mut depot, &message).unwrap();
    assert!(!rep.ok);
    assert_eq!(rep.code, Some(3));
    assert_eq!(rep.err.as_deref(), Some("Timeout serveur"));
    // nothing was persisted, not even a partial transaction
    assert_eq!(depot.reception.len(), 0);
    assert_eq!(depot.fichiers.len(), 0);
    assert_eq!(depot.journal.len(), 0);
}

#[test]
fn reponse_sans_cle_est_un_echec_doux() {
    // a malformed custodian reply degrades like a timeout: soft
    // failure, nothing persisted
    let g = GestionnaireDomaineMessages {};
    let mut depot = DepotMessages::new();
    depot.usagers.push(profil("uA", "alice", Some("kA")));
    let mut middleware = MiddlewareTest::nouveau(message_clair(vec!["alice"]));
    middleware.reponse_cle_vide = true;
    let message = enveloppe_poster(certificat_prive());

    let rep = consommer_commande(&g, &mut middleware, &mut depot, &message).unwrap();
    assert!(!rep.ok);
    assert_eq!(rep.code, Some(3));
    assert_eq!(depot.reception.len(), 0);
    assert_eq!(depot.journal.len(), 0);
}

#[test]
fn enveloppe_sans_cles_est_rejetee() {
    let g = GestionnaireDomaineMessages {};
    let mut depot = DepotMessages::new();
    let mut middleware = MiddlewareTest::nouveau(message_clair(vec!["alice"]));
    let mut message = enveloppe_poster(certificat_prive());
    message.dechiffrage = None;
    assert_eq!(
        consommer_commande(&g, &mut middleware, &mut depot, &message),
        Err(ErreurDomaine::EntreeMalformee)
    );
}

#[test]
fn carte_de_cles_vide_est_rejetee() {
    let g = GestionnaireDomaineMessages {};
    let mut depot = DepotMessages::new();
    let mut middleware = MiddlewareTest::nouveau(message_clair(vec!["alice"]));
    let mut message = enveloppe_poster(certificat_prive());
    message.dechiffrage = Some(DataDechiffrage {
        cles: Some(vec![]),
        format: Some("mgs4".to_string()),
        nonce: None,
        verification: None,
    });
    assert_eq!(
        consommer_commande(&g, &mut middleware, &mut depot, &message),
        Err(ErreurDomaine::EntreeMalformee)
    );
}

#[test]
fn commande_inconnue_est_abandonnee() {
    let g = GestionnaireDomaineMessages {};
    let mut depot = DepotMessages::new();
    let mut middleware = MiddlewareTest::nouveau(message_clair(vec!["alice"]));
    let mut message = enveloppe_poster(certificat_prive());
    message.type_message = TypeMessageOut::Commande(RoutageMessage {
        action: "marquerLu".to_string(),
        reply_to: None,
        correlation_id: None,
    });
    match consommer_commande(&g, &mut middleware, &mut depot, &message) {
        Err(ErreurDomaine::ActionInconnue(a)) => assert_eq!(a, "marquerLu"),
        autre => panic!("attendu ActionInconnue, obtenu {:?}", autre),
    }
}

#[test]
fn commande_sans_autorisation_est_refusee() {
    let g = GestionnaireDomaineMessages {};
    let mut depot = DepotMessages::new();
    let mut middleware = MiddlewareTest::nouveau(message_clair(vec!["alice"]));
    let certificat = Certificat {
        user_id: None,
        role_compte_prive: false,
        exchanges: vec![],
        delegation_globale_proprietaire: false,
    };
    let message = enveloppe_poster(certificat);
    assert_eq!(
        consommer_commande(&g, &mut middleware, &mut depot, &message),
        Err(ErreurDomaine::Autorisation)
    );
    assert_eq!(depot.reception.len(), 0);
}

#[test]
fn profil_cree_et_cle_provisionnee() {
    // the recipient is unknown on file: the identity service resolves
    // it, a profile is created, a key is generated, registered, and
    // only then recorded on the profile
    let g = GestionnaireDomaineMessages {};
    let mut depot = DepotMessages::new();
    let mut middleware = MiddlewareTest::nouveau(message_clair(vec!["dave"]));
    middleware.comptes = vec![("dave".to_string(), "uD".to_string())];
    let message = enveloppe_poster(certificat_prive());

    let rep = consommer_commande(&g, &mut middleware, &mut depot, &message).unwrap();
    assert!(rep.ok);
    assert_eq!(rep.code, Some(201));
    assert_eq!(rep.err, None);
    assert_eq!(depot.usagers.len(), 1);
    assert_eq!(depot.usagers[0].user_id, "uD");
    assert_eq!(depot.usagers[0].nom_usager.as_deref(), Some("dave"));
    assert_eq!(depot.usagers[0].cle_id.as_deref(), Some("cle-generee-1"));
    assert_eq!(depot.reception.len(), 1);
    assert_eq!(depot.reception[0].user_id, "uD");
    assert_eq!(
        depot.reception[0].message.cle_id.as_deref(),
        Some("cle-generee-1")
    );
}

#[test]
fn enregistrement_refuse_abandonne_le_destinataire() {
    // the custodian refuses the registration: the key id is never
    // persisted and the recipient is skipped, not the whole batch
    let g = GestionnaireDomaineMessages {};
    let mut depot = DepotMessages::new();
    depot.usagers.push(profil("uA", "alice", Some("kA")));
    let mut middleware = MiddlewareTest::nouveau(message_clair(vec!["alice", "dave"]));
    middleware.comptes = vec![("dave".to_string(), "uD".to_string())];
    middleware.enregistrement_accepte = false;
    let message = enveloppe_poster(certificat_prive());

    let rep = consommer_commande(&g, &mut middleware, &mut depot, &message).unwrap();
    assert!(rep.ok);
    // dave resolved to a profile, so he is not an unknown recipient;
    // only alice was actually served
    assert_eq!(rep.code, Some(201));
    assert_eq!(depot.reception.len(), 1);
    assert_eq!(depot.reception[0].user_id, "uA");
    // dave's profile exists but keeps no key id
    assert_eq!(depot.usagers.len(), 2);
    assert_eq!(depot.usagers[1].user_id, "uD");
    assert_eq!(depot.usagers[1].cle_id, None);
}

#[test]
fn cle_locale_utilisee_quand_presente() {
    let g = GestionnaireDomaineMessages {};
    let mut depot = DepotMessages::new();
    depot.usagers.push(profil("uA", "alice", Some("kA")));
    let mut middleware = MiddlewareTest::nouveau(message_clair(vec!["alice"]));
    // even with the custodian down, a key wrapped for this node's own
    // certificate lets the pipeline proceed
    middleware.custodian_indisponible = true;
    let mut message = enveloppe_poster(certificat_prive());
    message.dechiffrage = Some(DataDechiffrage {
        cles: Some(vec![CleChiffree {
            fingerprint: "fp-local".to_string(),
            cle: "cle-pour-nous".to_string(),
        }]),
        format: Some("mgs4".to_string()),
        nonce: None,
        verification: None,
    });

    let rep = consommer_commande(&g, &mut middleware, &mut depot, &message).unwrap();
    assert!(rep.ok);
    assert_eq!(rep.code, Some(201));
    assert_eq!(depot.reception.len(), 1);
}
