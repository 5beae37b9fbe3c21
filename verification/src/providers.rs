pub mod basic;
pub mod duration;
pub mod exit_code;
pub mod manifest;
pub mod netif;
pub mod netns;
pub mod os;
pub mod ssh;
pub mod virt;
