use vstd::prelude::*;

verus! {

/// The error taxonomy of the domain. Every fatal outcome of the pipeline,
/// of the query service and of the transaction applier is one of these
/// variants; soft failures (custodian timeout, unknown recipients) are not
/// errors and are reported through the command response instead.
#[derive(Debug, Clone, PartialEq, Eq)]
pub enum ErreurDomaine {
    /// The caller's certificate grants no access to the operation class.
    /// The triggering message is dropped, never retried.
    Autorisation,
    /// A message of the wrong bus class reached a consumer (a command
    /// handed to the request consumer, and so on).
    MauvaisTypeMessage,
    /// An action name that the consumer does not serve; the message is
    /// dropped.
    ActionInconnue(String),
    /// The inbound envelope misses decryption metadata or encrypted keys,
    /// or a body does not match its action: terminal rejection, no retry.
    EntreeMalformee,
    /// A remote collaborator failed in a way the pipeline treats as fatal
    /// for the current invocation.
    CollaborateurIndisponible,
    /// The resolved keys and the delivery profiles disagree in number:
    /// the whole call aborts before any transaction is emitted.
    IncoherenceCles,
    /// A certificate without a user id was used where one is demanded.
    CertificatSansUserId,
    /// A transaction without routing or action metadata cannot be replayed.
    TransactionSansAction,
    /// A transaction carries an action this applier does not recognise:
    /// replay must halt, never skip.
    TransactionInconnue(String),
}

} // verus!
