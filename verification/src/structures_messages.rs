use vstd::prelude::*;

verus! {

/// Self-describing ciphertext: opaque encoded bytes, cipher format tag,
/// nonce, integrity tag, and the identifier of the symmetric key that
/// protects it. Produced once by the fan-out pipeline and stored as-is;
/// the server never decrypts it again.
#[derive(Debug, Clone, PartialEq)]
pub struct DataChiffre {
    /// Encoded ciphertext.
    pub data_chiffre: String,
    /// Cipher format tag.
    pub format: Option<String>,
    /// Identifier of the symmetric key the payload is encrypted with.
    pub cle_id: Option<String>,
    /// Nonce of the cipher.
    pub nonce: Option<String>,
    /// Integrity / verification tag.
    pub verification: Option<String>,
}

/// One durable row of the reception store: a message delivered to one
/// recipient. Created only by the transaction applier, with set-on-insert
/// semantics keyed by `message_id`.
#[derive(Debug, Clone, PartialEq)]
pub struct MessageDb {
    /// Idempotency key; also the id of the transaction that created the row.
    pub message_id: String,
    /// Owner of the row.
    pub user_id: String,
    /// The per-recipient encrypted payload.
    pub message: DataChiffre,
    /// Server time of the original transaction, in epoch seconds.
    pub date_traitement: i64,
    /// Read flag, false on creation.
    pub lu: bool,
    /// Soft-delete flag as exposed to sync clients; absent means false.
    pub supprime: Option<bool>,
    /// Named partition for incremental sync; absent means the reception
    /// bucket.
    pub bucket: Option<String>,
    /// Server time the row was created, in epoch seconds.
    pub creation: i64,
    /// Server time of the last write to the row, in epoch seconds.
    pub derniere_modification: i64,
}

/// Reduced projection of a reception row, as the sync listing reads it.
#[derive(Debug, Clone, PartialEq)]
pub struct MessageDbRef {
    pub message_id: String,
    pub derniere_modification: i64,
    pub date_traitement: i64,
    pub lu: Option<bool>,
    pub supprime: Option<bool>,
    pub message: Option<DataChiffre>,
}

/// One durable row of the attachment store: per-file encryption metadata
/// tied to a delivered message. Lifecycle mirrors the message row and is
/// deleted together with it.
#[derive(Debug, Clone, PartialEq)]
pub struct FichierDb {
    pub message_id: String,
    pub user_id: String,
    /// Unique identifier of the file.
    pub fuuid: String,
    /// Identifier of the key that protects the file.
    pub cle_id: String,
    pub format: String,
    pub nonce: Option<String>,
    pub verification: Option<String>,
    /// Size of the encrypted file in bytes.
    pub taille_chiffre: i64,
    pub creation: i64,
    pub derniere_modification: i64,
}

/// Copy of an optional owned string, equal to its source.
pub fn dupliquer_option_chaine(o: &Option<String>) -> (r: Option<String>)
    ensures
        r == *o,
{
    match o {
        Some(s) => Some(s.clone()),
        None => None,
    }
}

impl DataChiffre {
    /// Copy of the payload, equal to its source.
    pub fn dupliquer(&self) -> (r: Self)
        ensures
            r == *self,
    {
        DataChiffre {
            data_chiffre: self.data_chiffre.clone(),
            format: dupliquer_option_chaine(&self.format),
            cle_id: dupliquer_option_chaine(&self.cle_id),
            nonce: dupliquer_option_chaine(&self.nonce),
            verification: dupliquer_option_chaine(&self.verification),
        }
    }
}

impl MessageDb {
    /// Copy of the row, equal to its source.
    pub fn dupliquer(&self) -> (r: Self)
        ensures
            r == *self,
    {
        MessageDb {
            message_id: self.message_id.clone(),
            user_id: self.user_id.clone(),
            message: self.message.dupliquer(),
            date_traitement: self.date_traitement,
            lu: self.lu,
            supprime: self.supprime,
            bucket: dupliquer_option_chaine(&self.bucket),
            creation: self.creation,
            derniere_modification: self.derniere_modification,
        }
    }
}

impl FichierDb {
    /// Copy of the row, equal to its source.
    pub fn dupliquer(&self) -> (r: Self)
        ensures
            r == *self,
    {
        FichierDb {
            message_id: self.message_id.clone(),
            user_id: self.user_id.clone(),
            fuuid: self.fuuid.clone(),
            cle_id: self.cle_id.clone(),
            format: self.format.clone(),
            nonce: dupliquer_option_chaine(&self.nonce),
            verification: dupliquer_option_chaine(&self.verification),
            taille_chiffre: self.taille_chiffre,
            creation: self.creation,
            derniere_modification: self.derniere_modification,
        }
    }
}

/// A local user as a message recipient. Created lazily on first delivery
/// attempt to an unknown username.
#[derive(Debug, Clone, PartialEq)]
pub struct ProfilUsagerMessages {
    /// Stable identity, unique in the profile store.
    pub user_id: String,
    /// Username; may be stale, refreshed from the identity service.
    pub nom_usager: Option<String>,
    /// Identifier of the key currently used to encrypt new messages for
    /// this user, once one is provisioned.
    pub cle_id: Option<String>,
    /// Server time of the last write to the profile, in epoch seconds.
    pub derniere_modification: i64,
}

impl ProfilUsagerMessages {
    /// Copy of the profile, equal to its source.
    pub fn dupliquer(&self) -> (r: Self)
        ensures
            r == *self,
    {
        ProfilUsagerMessages {
            user_id: self.user_id.clone(),
            nom_usager: dupliquer_option_chaine(&self.nom_usager),
            cle_id: dupliquer_option_chaine(&self.cle_id),
            derniere_modification: self.derniere_modification,
        }
    }
}

} // verus!
