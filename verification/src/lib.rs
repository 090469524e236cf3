//! Hivemind: cluster membership, container bookkeeping, deployment planning,
//! health tracking and network address management for a small container
//! orchestration platform.
pub mod text;
pub mod assoc;
pub mod membership;
pub mod election;
pub mod swim;
pub mod probe;
pub mod protocol;
pub mod laws;
pub mod health_laws;
pub mod app_laws;
pub mod containerd_laws;
pub mod network_laws;
pub mod deployment_laws;
pub mod node_laws;
pub mod containers_laws;
pub mod cicd_laws;
pub mod containers;
pub mod logging;
pub mod network;
pub mod ipam;
pub mod cicd;
pub mod github;
pub mod cloud;
pub mod deployment;
pub mod health;
pub mod containerd;
pub mod app;
pub mod node;
pub mod monitoring;
pub mod helm;
pub mod api;
