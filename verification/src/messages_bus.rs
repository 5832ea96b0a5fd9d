use vstd::prelude::*;

use crate::autorisation::Certificat;

verus! {

/// Routing of one bus message: the action named by the topic, and the
/// reply correlation a request may carry.
#[derive(Debug, Clone)]
pub struct RoutageMessage {
    pub action: String,
    pub reply_to: Option<String>,
    pub correlation_id: Option<String>,
}

/// The three message classes the bus delivers to this domain.
#[derive(Debug, Clone)]
pub enum TypeMessageOut {
    Commande(RoutageMessage),
    Requete(RoutageMessage),
    Evenement(RoutageMessage),
}

/// One wrapped key of the inbound envelope: the encrypted message key,
/// addressed to the certificate with this fingerprint.
#[derive(Debug, Clone)]
pub struct CleChiffree {
    pub fingerprint: String,
    pub cle: String,
}

/// Decryption metadata of the inbound envelope: the per-certificate key
/// map and the cipher parameters.
#[derive(Debug, Clone)]
pub struct DataDechiffrage {
    pub cles: Option<Vec<CleChiffree>>,
    pub format: Option<String>,
    pub nonce: Option<String>,
    pub verification: Option<String>,
}

/// The typed body of a bus message, decoded at the edge by its action
/// name. A command to post arrives encrypted and stays in the buffer; a
/// body that no action of this domain explains is `NonReconnu`.
#[derive(Debug, Clone)]
pub enum ContenuMessage {
    Chiffre,
    SyncMessages(crate::requetes::RequeteSyncMessages),
    MessagesParIds(crate::requetes::RequeteMessagesParIds),
    DechiffrerCles(crate::requetes::RequeteDechiffrerCles),
    NonReconnu,
}

/// One authenticated message as a consumer receives it: the caller's
/// certificate, the routing, the decoded body, the envelope's decryption
/// metadata and the raw signed bytes.
#[derive(Debug, Clone)]
pub struct MessageValide {
    pub certificat: Certificat,
    pub type_message: TypeMessageOut,
    pub contenu: ContenuMessage,
    pub dechiffrage: Option<DataDechiffrage>,
    pub buffer: Vec<u8>,
}

} // verus!
