//! Host-side driver logic for the two-stage bootstrap dialog of a MediaTek
//! SoC: the BROM/preloader command set, the Download Agent container and
//! patcher, the XFlash (v5) and XML (v6) framed protocols, GPT and storage
//! parsing, and the seccfg lock-state record.
pub mod ascii;
pub mod bytes;
pub mod scan;
pub mod connection;
pub mod dafile;
pub mod device;
pub mod devinfo;
pub mod error;
pub mod framing;
pub mod patch;
pub mod port;
pub mod seccfg;
pub mod storage;
pub mod xflash;
pub mod xml;

use vstd::prelude::*;

verus! {

} // verus!
