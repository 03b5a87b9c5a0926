//! Trust verification of the privileged manager application: certificate
//! extraction from APK signing blocks, package location, application-id
//! enumeration and the per-user manager resolver.

pub mod cert;
pub mod locate;
pub mod appid;
pub mod manager;
pub mod props;
