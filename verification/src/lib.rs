pub mod constantes;
pub mod erreurs;
pub mod autorisation;
pub mod structures_messages;
pub mod domaine_messages;
pub mod messages_bus;
pub mod commandes;
pub mod evenements;
pub mod requetes;
pub mod transactions;
pub mod depot;
pub mod lois;
