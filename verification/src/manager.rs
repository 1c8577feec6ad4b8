//! The registry of attached devices and the mode that selects the
//! derivation path, behind the operations that wallet code calls.

use vstd::prelude::*;
use vstd::string::StringExecFns;
use crate::address::{lemma_address_by_bytes, Address};
use crate::command::{spec_derivation_path, spec_is_mode_chunk_count, spec_sign_command};
use crate::command::spec_sign_requests;
use crate::command::{KeyPath, SignKind};
use crate::error::Error;
use crate::session::{Signing, SigningView};

verus! {

/// Ledger vendor id.
pub const LEDGER_VID: u16 = 0x2c97;

/// Product id of the Nano S.
pub const LEDGER_PID_NANO_S: u16 = 0x0000;

/// Product id of the Blue.
pub const LEDGER_PID_BLUE: u16 = 0x0001;

/// What a wallet's description is: three display texts and the address.
pub struct WalletInfoView {
    pub name: Seq<char>,
    pub manufacturer: Seq<char>,
    pub serial: Seq<char>,
    pub address: Seq<u8>,
}

/// The description of a hardware wallet.
#[derive(Debug, PartialEq, Eq)]
pub struct WalletInfo {
    /// Device name.
    pub name: String,
    /// Device manufacturer.
    pub manufacturer: String,
    /// The serial number of the device.
    pub serial: String,
    /// Ethereum address.
    pub address: Address,
}

impl View for WalletInfo {
    type V = WalletInfoView;

    open spec fn view(&self) -> WalletInfoView {
        WalletInfoView {
            name: self.name@,
            manufacturer: self.manufacturer@,
            serial: self.serial@,
            address: self.address@,
        }
    }
}

impl Clone for WalletInfo {
    fn clone(&self) -> (copy: WalletInfo)
        ensures
            copy@ == self@,
    {
        WalletInfo {
            name: self.name.clone(),
            manufacturer: self.manufacturer.clone(),
            serial: self.serial.clone(),
            address: self.address,
        }
    }
}

/// What a known device is: where to open it, and its description.
pub struct DeviceView {
    pub path: Seq<u8>,
    pub info: WalletInfoView,
}

/// A device that answered with its address.
#[derive(Debug, PartialEq, Eq)]
pub struct Device {
    /// The locator by which the transport opens the device, as the bytes
    /// that the transport gave.
    pub path: Vec<u8>,
    /// The wallet on the device.
    pub info: WalletInfo,
}

impl View for Device {
    type V = DeviceView;

    open spec fn view(&self) -> DeviceView {
        DeviceView { path: self.path@, info: self.info@ }
    }
}

impl Clone for Device {
    fn clone(&self) -> (copy: Device)
        ensures
            copy@ == self@,
    {
        Device { path: self.path.clone(), info: self.info.clone() }
    }
}

/// What the transport's enumeration reports of one attached unit.
#[derive(Debug, PartialEq, Eq)]
pub struct DeviceDescription {
    /// The locator by which the transport opens the unit, as the bytes that
    /// the transport gave.
    pub path: Vec<u8>,
    /// USB vendor id.
    pub vendor_id: u16,
    /// USB product id.
    pub product_id: u16,
    /// The manufacturer's name, where the unit reports one.
    pub manufacturer: Option<String>,
    /// The product's name, where the unit reports one.
    pub product: Option<String>,
    /// The serial number, where the unit reports one.
    pub serial_number: Option<String>,
}

/// A copy of an optional text.
fn copy_text(text: &Option<String>) -> (copy: Option<String>)
    ensures
        copy == *text,
{
    match text {
        Some(given) => Some(given.clone()),
        None => None,
    }
}

impl Clone for DeviceDescription {
    fn clone(&self) -> (copy: DeviceDescription)
        ensures
            copy.path@ == self.path@,
            copy.vendor_id == self.vendor_id,
            copy.product_id == self.product_id,
            copy.manufacturer == self.manufacturer,
            copy.product == self.product,
            copy.serial_number == self.serial_number,
    {
        DeviceDescription {
            path: self.path.clone(),
            vendor_id: self.vendor_id,
            product_id: self.product_id,
            manufacturer: copy_text(&self.manufacturer),
            product: copy_text(&self.product),
            serial_number: copy_text(&self.serial_number),
        }
    }
}

/// Which change of the set of devices a caller waits for.
#[derive(Debug, Clone, Copy, PartialEq, Eq, Structural)]
pub enum DeviceDirection {
    /// A device was plugged in.
    Arrived,
    /// A device was removed.
    Left,
}

/// Whether a unit with these ids speaks the protocol: the vendor is Ledger
/// and the product is a Nano S or a Blue.
pub open spec fn spec_is_ledger(vendor_id: u16, product_id: u16) -> bool {
    vendor_id == LEDGER_VID && (product_id == LEDGER_PID_NANO_S || product_id == LEDGER_PID_BLUE)
}

/// A display text, or `Unknown` where the unit reports none.
pub open spec fn spec_or_unknown(text: Option<String>) -> Seq<char> {
    match text {
        Some(given) => given@,
        None => "Unknown"@,
    }
}

/// The device that a unit's description and its address make.
pub open spec fn spec_device(description: DeviceDescription, address: Seq<u8>) -> DeviceView {
    DeviceView {
        path: description.path@,
        info: WalletInfoView {
            name: spec_or_unknown(description.product),
            manufacturer: spec_or_unknown(description.manufacturer),
            serial: spec_or_unknown(description.serial_number),
            address,
        },
    }
}

/// The devices among the outcomes of reading each unit: the units that
/// failed are left out, the others keep their order.
pub open spec fn spec_found(outcomes: Seq<Result<Device, Error>>) -> Seq<DeviceView>
    decreases outcomes.len(),
{
    if outcomes.len() == 0 {
        Seq::empty()
    } else {
        let before = spec_found(outcomes.drop_last());
        match outcomes.last() {
            Ok(device) => before.push(device@),
            Err(_) => before,
        }
    }
}

/// The outcome of a scan for a caller that waits for a change in one
/// direction: by how many the number of devices changed that way, or that
/// it did not.
pub open spec fn spec_change(direction: DeviceDirection, before: nat, after: nat) -> Result<
    usize,
    Error,
> {
    match direction {
        DeviceDirection::Arrived => if after > before {
            Ok((after - before) as usize)
        } else {
            Err(Error::NoDeviceArrived)
        },
        DeviceDirection::Left => if before > after {
            Ok((before - after) as usize)
        } else {
            Err(Error::NoDeviceLeft)
        },
    }
}

/// The manager after a scan with the given outcomes: the devices that were
/// read, and the mode as it was.
pub open spec fn spec_scanned(before: ManagerView, outcomes: Seq<Result<Device, Error>>) -> ManagerView {
    ManagerView { devices: spec_found(outcomes), key_path: before.key_path }
}

/// Whether `index` is the first device with the given address.
pub open spec fn spec_first_with(devices: Seq<DeviceView>, address: Seq<u8>, index: int) -> bool {
    &&& 0 <= index < devices.len()
    &&& devices[index].info.address == address
    &&& forall|j: int| 0 <= j < index ==> (#[trigger] devices[j]).info.address != address
}

/// Whether no device has the given address.
pub open spec fn spec_none_with(devices: Seq<DeviceView>, address: Seq<u8>) -> bool {
    forall|j: int| 0 <= j < devices.len() ==> (#[trigger] devices[j]).info.address != address
}

/// The descriptions of a sequence of devices.
pub open spec fn spec_infos(devices: Seq<DeviceView>) -> Seq<WalletInfoView> {
    devices.map_values(|d: DeviceView| d.info)
}

/// The views of a sequence of devices.
pub open spec fn spec_device_views(devices: Seq<Device>) -> Seq<DeviceView> {
    devices.map_values(|d: Device| d@)
}

/// The views of a sequence of descriptions.
pub open spec fn spec_info_views(infos: Seq<WalletInfo>) -> Seq<WalletInfoView> {
    infos.map_values(|i: WalletInfo| i@)
}

/// What a manager holds: the known devices in the order of the last scan,
/// and the mode in force.
pub struct ManagerView {
    pub devices: Seq<DeviceView>,
    pub key_path: KeyPath,
}

/// Ledger device manager.
#[derive(Debug)]
pub struct Manager {
    devices: Vec<Device>,
    key_path: KeyPath,
}

impl View for Manager {
    type V = ManagerView;

    closed spec fn view(&self) -> ManagerView {
        ManagerView { devices: spec_device_views(self.devices@), key_path: self.key_path }
    }
}

/// What a caller needs to run a signing operation: the device to open, and
/// the conversation to have with it.
#[derive(Debug)]
pub struct SigningJob {
    /// The locator of the device that holds the key.
    pub path: Vec<u8>,
    /// The signing operation, not yet started.
    pub signing: Signing,
}

/// A copy of an optional display text, or `Unknown`.
fn or_unknown(text: &Option<String>) -> (shown: String)
    ensures
        shown@ == spec_or_unknown(*text),
{
    match text {
        Some(given) => given.clone(),
        None => String::from_str("Unknown"),
    }
}

impl Manager {
    /// A manager that knows no device yet and uses the Ethereum path.
    pub fn new() -> (manager: Manager)
        ensures
            manager@ == (ManagerView { devices: Seq::empty(), key_path: KeyPath::Ethereum }),
    {
        let manager = Manager { devices: Vec::new(), key_path: KeyPath::Ethereum };
        assert(manager@.devices =~= Seq::empty());
        manager
    }

    /// Judges the ids of a raw USB device.
    pub fn is_valid_ledger(vendor_id: u16, product_id: u16) -> (outcome: Result<(), Error>)
        ensures
            outcome == if spec_is_ledger(vendor_id, product_id) {
                Ok::<(), Error>(())
            } else {
                Err::<(), Error>(Error::InvalidDevice)
            },
    {
        if vendor_id == LEDGER_VID && (product_id == LEDGER_PID_NANO_S || product_id
            == LEDGER_PID_BLUE) {
            Ok(())
        } else {
            Err(Error::InvalidDevice)
        }
    }

    /// The units of an enumeration that speak the protocol, in their order:
    /// those whose vendor and product ids are a Ledger's.
    pub fn candidates(units: Vec<DeviceDescription>) -> (kept: Vec<DeviceDescription>)
        ensures
            kept@ == units@.filter(
                |unit: DeviceDescription| spec_is_ledger(unit.vendor_id, unit.product_id),
            ),
    {
        let ghost all = units@;
        let ghost fits = |unit: DeviceDescription| spec_is_ledger(unit.vendor_id, unit.product_id);
        let mut kept: Vec<DeviceDescription> = Vec::new();
        for unit in it: units.into_iter()
            invariant
                it.seq() == all,
                fits == (|unit: DeviceDescription| spec_is_ledger(unit.vendor_id, unit.product_id)),
                kept@ == all.take(it.index() as int).filter(fits),
        {
            let ghost done = it.index() as int;
            assert(all.take(done + 1).drop_last() =~= all.take(done));
            reveal(Seq::filter);
            match Manager::is_valid_ledger(unit.vendor_id, unit.product_id) {
                Ok(_) => {
                    kept.push(unit);
                },
                Err(_) => {},
            }
        }
        assert(all.take(all.len() as int) =~= all);
        kept
    }

    /// The mode in force.
    pub fn key_path(&self) -> (key_path: KeyPath)
        ensures
            key_path == self@.key_path,
    {
        self.key_path
    }

    /// Puts another mode in force, for every derivation path looked up from
    /// now on. The known devices stay.
    pub fn set_key_path(&mut self, key_path: KeyPath)
        ensures
            final(self)@ == (ManagerView { devices: old(self)@.devices, key_path }),
    {
        self.key_path = key_path;
    }

    /// Makes a device of a unit's description and of what reading its
    /// address gave. Display texts that the unit does not report read
    /// `Unknown`. A failed reading is passed on.
    pub fn read_device(description: &DeviceDescription, address: Result<Option<Address>, Error>) -> (outcome:
        Result<Device, Error>)
        ensures
            match address {
                Ok(Some(found)) => outcome matches Ok(device) && device@ == spec_device(
                    *description,
                    found@,
                ),
                Ok(None) => outcome == Err::<Device, Error>(Error::ImpossibleError),
                Err(error) => outcome == Err::<Device, Error>(error),
            },
    {
        match address {
            Ok(Some(found)) => Ok(
                Device {
                    path: description.path.clone(),
                    info: WalletInfo {
                        name: or_unknown(&description.product),
                        manufacturer: or_unknown(&description.manufacturer),
                        serial: or_unknown(&description.serial_number),
                        address: found,
                    },
                },
            ),
            Ok(None) => Err(Error::ImpossibleError),
            Err(error) => Err(error),
        }
    }

    /// Takes in the outcome of a scan: what reading each protocol-compatible
    /// unit gave, in the order of the enumeration.
    ///
    /// The units that were read become the known devices, in place of all
    /// that were known before. The result is the growth of their number for
    /// a caller that waits for arrivals, the shrinkage for one that waits
    /// for departures, and an error where the number did not change that
    /// way.
    pub fn update_devices(&mut self, direction: DeviceDirection, outcomes: Vec<Result<Device, Error>>) -> (outcome:
        Result<usize, Error>)
        ensures
            final(self)@ == spec_scanned(old(self)@, outcomes@),
            outcome == spec_change(
                direction,
                old(self)@.devices.len(),
                spec_found(outcomes@).len(),
            ),
    {
        let before = self.devices.len();
        let mut found: Vec<Device> = Vec::new();
        let ghost all = outcomes@;
        for outcome in it: outcomes.into_iter()
            invariant
                it.seq() == all,
                spec_device_views(found@) == spec_found(all.take(it.index() as int)),
        {
            let ghost done = it.index() as int;
            assert(all.take(done + 1).drop_last() =~= all.take(done));
            match outcome {
                Ok(device) => {
                    found.push(device);
                    assert(spec_device_views(found@) =~= spec_found(all.take(done + 1)));
                },
                Err(_) => {},
            }
        }
        assert(all.take(all.len() as int) =~= all);
        let after = found.len();
        self.devices = found;
        match direction {
            DeviceDirection::Arrived => {
                if after > before {
                    Ok(after - before)
                } else {
                    Err(Error::NoDeviceArrived)
                }
            },
            DeviceDirection::Left => {
                if before > after {
                    Ok(before - after)
                } else {
                    Err(Error::NoDeviceLeft)
                }
            },
        }
    }

    /// The descriptions of all known devices, in the order of the last scan.
    pub fn list_devices(&self) -> (infos: Vec<WalletInfo>)
        ensures
            spec_info_views(infos@) == spec_infos(self@.devices),
    {
        let mut infos: Vec<WalletInfo> = Vec::new();
        let mut i: usize = 0;
        while i < self.devices.len()
            invariant
                i <= self.devices@.len(),
                infos@.len() == i,
                forall|j: int| 0 <= j < i ==> (#[trigger] infos@[j])@ == self.devices@[j]@.info,
            decreases self.devices@.len() - i,
        {
            infos.push(self.devices[i].info.clone());
            i += 1;
        }
        assert(spec_info_views(infos@) =~= spec_infos(self@.devices));
        infos
    }

    /// The devices that are locked: none, since a Ledger cannot be locked
    /// through this protocol.
    pub fn list_locked_devices(&self) -> (locked: Vec<String>)
        ensures
            locked@.len() == 0,
    {
        Vec::new()
    }

    /// The position of the first known device with the given address.
    fn find(&self, address: &Address) -> (position: Option<usize>)
        ensures
            match position {
                Some(index) => spec_first_with(self@.devices, address@, index as int),
                None => spec_none_with(self@.devices, address@),
            },
    {
        let mut i: usize = 0;
        while i < self.devices.len()
            invariant
                i <= self.devices@.len(),
                forall|j: int|
                    0 <= j < i ==> (#[trigger] self@.devices[j]).info.address != address@,
            decreases self.devices@.len() - i,
        {
            if self.devices[i].info.address == *address {
                return Some(i);
            }
            proof {
                lemma_address_by_bytes(self.devices[i as int].info.address, *address);
            }
            i += 1;
        }
        None
    }

    /// The description of the first known device with the given address.
    pub fn get_wallet(&self, address: &Address) -> (wallet: Option<WalletInfo>)
        ensures
            match wallet {
                Some(info) => exists|index: int|
                    spec_first_with(self@.devices, address@, index) && info@
                        == self@.devices[index].info,
                None => spec_none_with(self@.devices, address@),
            },
    {
        match self.find(address) {
            Some(index) => Some(self.devices[index].info.clone()),
            None => None,
        }
    }

    /// Prepares the signing of a payload by the first known device with the
    /// given address, under the mode in force.
    fn sign(&self, kind: SignKind, address: &Address, payload: &[u8]) -> (outcome: Result<
        SigningJob,
        Error,
    >)
        ensures
            match outcome {
                Ok(job) => {
                    &&& exists|index: int|
                        spec_first_with(self@.devices, address@, index) && job.path@
                            == self@.devices[index].path
                    &&& job.signing@ == (SigningView {
                        requests: spec_sign_requests(
                            spec_sign_command(kind),
                            spec_derivation_path(self@.key_path),
                            payload@,
                        ),
                        sent: 0,
                    })
                    &&& spec_is_mode_chunk_count(
                        self@.key_path,
                        payload@.len(),
                        job.signing@.requests.len(),
                    )
                },
                Err(error) => error == Error::KeyNotFound && spec_none_with(
                    self@.devices,
                    address@,
                ),
            },
    {
        match self.find(address) {
            Some(index) => Ok(
                SigningJob {
                    path: self.devices[index].path.clone(),
                    signing: Signing::new(kind, self.key_path, payload),
                },
            ),
            None => Err(Error::KeyNotFound),
        }
    }

    /// Prepares the signing of a personal message by the device that holds
    /// the key of `address`; fails where no known device does.
    pub fn sign_personal_message(&self, address: &Address, msg: &[u8]) -> (outcome: Result<
        SigningJob,
        Error,
    >)
        ensures
            match outcome {
                Ok(job) => {
                    &&& exists|index: int|
                        spec_first_with(self@.devices, address@, index) && job.path@
                            == self@.devices[index].path
                    &&& job.signing@ == (SigningView {
                        requests: spec_sign_requests(
                            spec_sign_command(SignKind::Message),
                            spec_derivation_path(self@.key_path),
                            msg@,
                        ),
                        sent: 0,
                    })
                    &&& spec_is_mode_chunk_count(
                        self@.key_path,
                        msg@.len(),
                        job.signing@.requests.len(),
                    )
                },
                Err(error) => error == Error::KeyNotFound && spec_none_with(
                    self@.devices,
                    address@,
                ),
            },
    {
        self.sign(SignKind::Message, address, msg)
    }

    /// Prepares the signing of a transaction by the device that holds the
    /// key of `address`; fails where no known device does.
    pub fn sign_transaction(&self, address: &Address, transaction: &[u8]) -> (outcome: Result<
        SigningJob,
        Error,
    >)
        ensures
            match outcome {
                Ok(job) => {
                    &&& exists|index: int|
                        spec_first_with(self@.devices, address@, index) && job.path@
                            == self@.devices[index].path
                    &&& job.signing@ == (SigningView {
                        requests: spec_sign_requests(
                            spec_sign_command(SignKind::Transaction),
                            spec_derivation_path(self@.key_path),
                            transaction@,
                        ),
                        sent: 0,
                    })
                    &&& spec_is_mode_chunk_count(
                        self@.key_path,
                        transaction@.len(),
                        job.signing@.requests.len(),
                    )
                },
                Err(error) => error == Error::KeyNotFound && spec_none_with(
                    self@.devices,
                    address@,
                ),
            },
    {
        self.sign(SignKind::Transaction, address, transaction)
    }
}

/// A scan finds at most as many devices as units were read.
pub proof fn lemma_found_len(outcomes: Seq<Result<Device, Error>>)
    ensures
        spec_found(outcomes).len() <= outcomes.len(),
    decreases outcomes.len(),
{
    if outcomes.len() > 0 {
        lemma_found_len(outcomes.drop_last());
    }
}

/// Where every unit was read, the scan finds them all, in order.
pub proof fn lemma_found_all(devices: Seq<Device>)
    ensures
        spec_found(devices.map_values(|d: Device| Ok::<Device, Error>(d))) == spec_device_views(
            devices,
        ),
    decreases devices.len(),
{
    let outcomes = devices.map_values(|d: Device| Ok::<Device, Error>(d));
    if devices.len() > 0 {
        lemma_found_all(devices.drop_last());
        assert(outcomes.drop_last() =~= devices.drop_last().map_values(
            |d: Device| Ok::<Device, Error>(d),
        ));
        assert(spec_found(outcomes) =~= spec_device_views(devices));
    } else {
        assert(spec_found(outcomes) =~= spec_device_views(devices));
    }
}

/// A scan replaces what was known: after two scans in a row the known
/// devices, and so the descriptions listed, are those of the second scan
/// alone, whatever the first one found.
pub proof fn lemma_scan_replaces(
    before: ManagerView,
    first: Seq<Result<Device, Error>>,
    second: Seq<Result<Device, Error>>,
)
    ensures
        spec_scanned(spec_scanned(before, first), second).devices == spec_found(second),
        spec_scanned(spec_scanned(before, first), second) == spec_scanned(before, second),
        spec_infos(spec_scanned(spec_scanned(before, first), second).devices) == spec_infos(
            spec_found(second),
        ),
{
}

/// The two directions of waiting never both succeed: a scan reports
/// arrivals exactly when the number of devices grew, and then by how many;
/// departures exactly when it shrank, and then by how many; and with the
/// number unchanged it fails for both.
pub proof fn lemma_change_by_direction(before: nat, after: nat)
    requires
        before <= usize::MAX,
        after <= usize::MAX,
    ensures
        spec_change(DeviceDirection::Arrived, before, after) is Ok <==> after > before,
        spec_change(DeviceDirection::Left, before, after) is Ok <==> before > after,
        after > before ==> spec_change(DeviceDirection::Arrived, before, after) == Ok::<
            usize,
            Error,
        >((after - before) as usize),
        before > after ==> spec_change(DeviceDirection::Left, before, after) == Ok::<usize, Error>(
            (before - after) as usize,
        ),
        after <= before ==> spec_change(DeviceDirection::Arrived, before, after) == Err::<
            usize,
            Error,
        >(Error::NoDeviceArrived),
        before <= after ==> spec_change(DeviceDirection::Left, before, after) == Err::<
            usize,
            Error,
        >(Error::NoDeviceLeft),
{
}

} // verus!
