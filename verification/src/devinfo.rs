//! Everything the driver learns about the connected device: identity
//! queried over the preloader, storage reported by the agent, and the
//! partition map. One value object, read and updated through its methods.
use vstd::prelude::*;

use crate::storage::{Partition, Storage};

verus! {

/// The device record.
pub struct DevInfoData {
    /// Human chipset name, when known.
    pub chipset: String,
    /// SoC identifier blob; empty when the device lacks the query.
    pub soc_id: Vec<u8>,
    /// Mobile equipment identifier blob; empty when the device lacks it.
    pub meid: Vec<u8>,
    /// Hardware code reported by the boot ROM.
    pub hw_code: u16,
    /// Partition map, synthetic entries first.
    pub partitions: Vec<Partition>,
    /// Storage record reported by the agent, once probed.
    pub storage: Option<Storage>,
    /// Target configuration word carrying the security bits.
    pub target_config: u32,
}

/// Holder of the device record.
pub struct DeviceInfo {
    /// The record itself.
    pub data: DevInfoData,
}

impl DeviceInfo {
    /// An empty record: identity zeroed, no storage, no partitions.
    pub fn new() -> (r: DeviceInfo)
        ensures
            r.data.soc_id@.len() == 0,
            r.data.meid@.len() == 0,
            r.data.hw_code == 0,
            r.data.partitions@.len() == 0,
            r.data.storage is None,
            r.data.target_config == 0,
    {
        DeviceInfo {
            data: DevInfoData {
                chipset: String::new(),
                soc_id: Vec::new(),
                meid: Vec::new(),
                hw_code: 0,
                partitions: Vec::new(),
                storage: None,
                target_config: 0,
            },
        }
    }

    /// Replaces the whole record.
    pub fn set_data(&mut self, data: DevInfoData)
        ensures
            final(self).data == data,
    {
        self.data = data;
    }

    /// The SoC identifier blob.
    pub fn soc_id(&self) -> (r: &Vec<u8>)
        ensures
            r@ == self.data.soc_id@,
    {
        &self.data.soc_id
    }

    /// The mobile equipment identifier blob.
    pub fn meid(&self) -> (r: &Vec<u8>)
        ensures
            r@ == self.data.meid@,
    {
        &self.data.meid
    }

    /// The hardware code.
    pub fn hw_code(&self) -> (r: u16)
        ensures
            r == self.data.hw_code,
    {
        self.data.hw_code
    }

    /// The partition map.
    pub fn partitions(&self) -> (r: &Vec<Partition>)
        ensures
            r@ == self.data.partitions@,
    {
        &self.data.partitions
    }

    /// Replaces the partition map.
    pub fn set_partitions(&mut self, partitions: Vec<Partition>)
        ensures
            final(self).data.partitions@ == partitions@,
            final(self).data.storage == old(self).data.storage,
            final(self).data.hw_code == old(self).data.hw_code,
            final(self).data.target_config == old(self).data.target_config,
            final(self).data.soc_id@ == old(self).data.soc_id@,
            final(self).data.meid@ == old(self).data.meid@,
    {
        self.data.partitions = partitions;
    }

    /// The storage record, once probed.
    pub fn storage(&self) -> (r: Option<Storage>)
        ensures
            r == self.data.storage,
    {
        self.data.storage
    }

    /// Records the probed storage.
    pub fn set_storage(&mut self, storage: Storage)
        ensures
            final(self).data.storage == Some(storage),
            final(self).data.partitions@ == old(self).data.partitions@,
            final(self).data.hw_code == old(self).data.hw_code,
            final(self).data.target_config == old(self).data.target_config,
            final(self).data.soc_id@ == old(self).data.soc_id@,
            final(self).data.meid@ == old(self).data.meid@,
    {
        self.data.storage = Some(storage);
    }

    /// Finds the partition carrying `name`, as an index into the map.
    pub fn find_partition(&self, name: &[u8]) -> (r: Option<usize>)
        ensures
            r is Some ==> r->0 < self.data.partitions@.len()
                && self.data.partitions@[r->0 as int].name@ == name@,
            r is None ==> forall|i: int|
                0 <= i < self.data.partitions@.len()
                    ==> (#[trigger] self.data.partitions@[i]).name@ != name@,
    {
        let mut i: usize = 0;
        while i < self.data.partitions.len()
            invariant
                i <= self.data.partitions@.len(),
                forall|k: int|
                    0 <= k < i ==> (#[trigger] self.data.partitions@[k]).name@ != name@,
            decreases self.data.partitions@.len() - i,
        {
            let p: &Partition = &self.data.partitions[i];
            if p.name.len() == name.len() && crate::scan::is_match_at(
                p.name.as_slice(),
                name,
                0,
            ) {
                proof {
                    assert(p.name@.subrange(0, name@.len() as int) =~= p.name@);
                }
                return Some(i);
            }
            proof {
                if p.name@.len() == name@.len() {
                    assert(p.name@.subrange(0, name@.len() as int) =~= p.name@);
                }
            }
            i = i + 1;
        }
        None
    }

    /// The target configuration word.
    pub fn target_config(&self) -> (r: u32)
        ensures
            r == self.data.target_config,
    {
        self.data.target_config
    }

    /// Whether secure boot is enabled: bit 0 of the configuration.
    pub fn sbc_enabled(&self) -> (r: bool)
        ensures
            r == (self.data.target_config & 0x1 != 0),
    {
        self.data.target_config & 0x1 != 0
    }

    /// Whether serial-link authorization is required: bit 1.
    pub fn sla_enabled(&self) -> (r: bool)
        ensures
            r == (self.data.target_config & 0x2 != 0),
    {
        self.data.target_config & 0x2 != 0
    }

    /// Whether download-agent authorization is required: bit 2.
    pub fn daa_enabled(&self) -> (r: bool)
        ensures
            r == (self.data.target_config & 0x4 != 0),
    {
        self.data.target_config & 0x4 != 0
    }
}

} // verus!
