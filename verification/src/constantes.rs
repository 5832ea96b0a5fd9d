use vstd::prelude::*;

verus! {

pub const DOMAINE_NOM: &'static str = "Messages";
pub const COLLECTION_NOM: &'static str = "Messages";

pub const COLLECTION_RECEPTION_NOM: &'static str = "Messages/reception";
pub const COLLECTION_USAGERS_NOM: &'static str = "Messages/usagers";
pub const COLLECTION_FICHIERS_NOM: &'static str = "Messages/fichiers";

pub const QUEUE_VOLATILS_NOM: &'static str = "Messages/volatils";
pub const QUEUE_TRIGGERS_NOM: &'static str = "Messages/triggers";

pub const REQUETE_SYNC_MESSAGES: &'static str = "syncMessages";
pub const REQUETE_DECHIFFRER_CLES: &'static str = "dechiffrerCles";
pub const REQUETE_MESSAGES_PAR_IDS: &'static str = "getMessagesParIds";
pub const REQUETE_RECLAMATIONS: &'static str = "reclamations";

pub const COMMANDE_POSTER_V1: &'static str = "posterV1";
pub const COMMANDE_MARQUER_LU: &'static str = "marquerLu";
pub const COMMANDE_SUPPRIMER_MESSAGE: &'static str = "supprimerMessage";
pub const COMMANDE_ASSOCIER_IMAGES: &'static str = "associerImages";
pub const COMMANDE_ASSOCIER_VIDEOS: &'static str = "associerVideos";
pub const COMMANDE_RECLAMER_FUUIDS: &'static str = "reclamerFuuids";

pub const EVENEMENT_CEDULE: &'static str = "cedule";
pub const EVENEMENT_NOUVEAU_MESSAGE: &'static str = "nouveauMessage";
pub const EVENEMENT_MESSAGE_LU: &'static str = "messageLu";
pub const EVENEMENT_MESSAGE_SUPPRIME: &'static str = "messageSupprime";

pub const VERSION_TRANSACTION_MESSAGE_1: u16 = 1;

} // verus!
