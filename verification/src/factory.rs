//! The device factory: which creator builds the device for a device type.

use crate::error::{YKeyError, YKeyErrorView, YKeyResult};
use crate::types::{DeviceInfo, DeviceType};
use vstd::prelude::*;

verus! {

/// Builds devices of one hardware family. The factory finds a creator by the
/// device type that it was registered for.
pub trait DeviceCreator<D>: Send + Sync {
    /// Whether `r` is what this creator may return for the description. A
    /// creator that does not say leaves every outcome open.
    open spec fn creates(&self, info: DeviceInfo, r: YKeyResult<D>) -> bool {
        true
    }

    /// Builds a device, not yet connected, from its description.
    fn create(&self, info: &DeviceInfo) -> (r: YKeyResult<D>)
        ensures
            self.creates(*info, r),
    ;

    /// Whether this creator can build the device. A creator may support
    /// device types beyond the one it is registered for.
    fn supports(&self, info: &DeviceInfo) -> bool;

    /// The rank of this creator among those that support a device: the
    /// higher one is preferred.
    fn priority(&self) -> (r: u32)
        default_ensures
            r == 0,
    {
        0
    }

    /// A name for this creator, for people to read.
    fn name(&self) -> &str;
}

/// A device that exists in memory only. It answers every request with the
/// two bytes `0x90 0x00` while it is connected.
pub struct MockDevice {
    info: DeviceInfo,
    connected: bool,
}

impl MockDevice {
    /// The description that the device was built from.
    pub closed spec fn info_spec(&self) -> DeviceInfo {
        self.info
    }

    /// Whether the device is connected.
    pub closed spec fn connected(&self) -> bool {
        self.connected
    }

    /// The answer to every request.
    pub open spec fn answer() -> Seq<u8> {
        seq![0x90u8, 0x00u8]
    }

    /// A device with the description, not connected.
    pub fn new(info: DeviceInfo) -> (r: Self)
        ensures
            r.info_spec() == info,
            !r.connected(),
    {
        MockDevice { info, connected: false }
    }

    /// The device's description.
    pub fn info(&self) -> (r: YKeyResult<DeviceInfo>)
        ensures
            r matches Ok(i) && i@ == self.info_spec()@,
    {
        Ok(self.info.clone())
    }

    /// Connects the device.
    pub fn connect(&mut self) -> (r: YKeyResult<()>)
        ensures
            r is Ok,
            final(self).connected(),
            final(self).info_spec() == old(self).info_spec(),
    {
        self.connected = true;
        Ok(())
    }

    /// Disconnects the device.
    pub fn disconnect(&mut self) -> (r: YKeyResult<()>)
        ensures
            r is Ok,
            !final(self).connected(),
            final(self).info_spec() == old(self).info_spec(),
    {
        self.connected = false;
        Ok(())
    }

    /// Whether the device is connected.
    pub fn is_connected(&self) -> (r: bool)
        ensures
            r == self.connected(),
    {
        self.connected
    }

    /// Sends a request. A connected device answers `0x90 0x00`; one that is
    /// not connected fails with a communication error.
    pub fn send_raw(&mut self, data: &[u8]) -> (r: YKeyResult<Vec<u8>>)
        ensures
            *final(self) == *old(self),
            match r {
                Ok(bytes) => old(self).connected() && bytes@ == Self::answer(),
                Err(e) => !old(self).connected() && e@ == YKeyErrorView::CommunicationError(
                    "Device not connected"@,
                ),
            },
    {
        if !self.connected {
            return Err(YKeyError::communication("Device not connected"));
        }
        let mut bytes: Vec<u8> = Vec::new();
        bytes.push(0x90);
        bytes.push(0x00);
        assert(bytes@ =~= Self::answer());
        Ok(bytes)
    }
}

/// What the built-in creators return for a description: an in-memory device
/// with that description, not connected.
pub open spec fn mock_created(info: DeviceInfo, r: YKeyResult<MockDevice>) -> bool {
    r matches Ok(device) && device.info_spec()@ == info@ && !device.connected()
}

/// Builds in-memory devices for YubiKeys.
pub struct YubiKeyCreator;

/// Builds in-memory devices for CanoKeys.
pub struct CanoKeyCreator;

/// Builds in-memory devices for any FIDO2 key.
pub struct GenericFidoCreator;

impl DeviceCreator<MockDevice> for YubiKeyCreator {
    open spec fn creates(&self, info: DeviceInfo, r: YKeyResult<MockDevice>) -> bool {
        mock_created(info, r)
    }

    fn create(&self, info: &DeviceInfo) -> (r: YKeyResult<MockDevice>) {
        Ok(MockDevice::new(info.clone()))
    }

    fn supports(&self, info: &DeviceInfo) -> (r: bool)
        ensures
            r == (info.device_type == DeviceType::YubiKey),
    {
        info.device_type == DeviceType::YubiKey
    }

    fn name(&self) -> (r: &str)
        ensures
            r@ == "YubiKey Creator"@,
    {
        "YubiKey Creator"
    }
}

impl DeviceCreator<MockDevice> for CanoKeyCreator {
    open spec fn creates(&self, info: DeviceInfo, r: YKeyResult<MockDevice>) -> bool {
        mock_created(info, r)
    }

    fn create(&self, info: &DeviceInfo) -> (r: YKeyResult<MockDevice>) {
        Ok(MockDevice::new(info.clone()))
    }

    fn supports(&self, info: &DeviceInfo) -> (r: bool)
        ensures
            r == (info.device_type == DeviceType::CanoKey),
    {
        info.device_type == DeviceType::CanoKey
    }

    fn name(&self) -> (r: &str)
        ensures
            r@ == "CanoKey Creator"@,
    {
        "CanoKey Creator"
    }
}

impl DeviceCreator<MockDevice> for GenericFidoCreator {
    open spec fn creates(&self, info: DeviceInfo, r: YKeyResult<MockDevice>) -> bool {
        mock_created(info, r)
    }

    fn create(&self, info: &DeviceInfo) -> (r: YKeyResult<MockDevice>) {
        Ok(MockDevice::new(info.clone()))
    }

    fn supports(&self, info: &DeviceInfo) -> (r: bool)
        ensures
            r,
    {
        true
    }

    fn name(&self) -> (r: &str)
        ensures
            r@ == "Generic FIDO Creator"@,
    {
        "Generic FIDO Creator"
    }
}

/// A creator with the device type that it is registered for.
pub struct Registration<C> {
    /// The device type that the creator builds devices for.
    pub device_type: DeviceType,
    /// The creator.
    pub creator: C,
}

impl<C> Registration<C> {
    /// The creator, registered for the device type.
    pub fn new(device_type: DeviceType, creator: C) -> (r: Self)
        ensures
            r.device_type == device_type,
            r.creator == creator,
    {
        let r = Registration { device_type, creator };
        r
    }
}

/// The device types of a list of registrations, in their order.
pub open spec fn keys<C>(entries: Seq<Registration<C>>) -> Seq<DeviceType> {
    Seq::new(entries.len(), |i: int| entries[i].device_type)
}

/// The device type whose creator builds devices of type `t`, given the
/// registered types: `t` itself if it is registered, else `Generic` if that
/// is, else none.
pub open spec fn resolved(registered: Seq<DeviceType>, t: DeviceType) -> Option<DeviceType> {
    if registered.contains(t) {
        Some(t)
    } else if registered.contains(DeviceType::Generic) {
        Some(DeviceType::Generic)
    } else {
        None
    }
}

/// Device factory: finds the creator for a device by the device's type. The
/// creators stand in a list with one entry for each device type, in the
/// order in which the types were first registered.
#[verifier::reject_recursive_types(D)]
pub struct DeviceFactory<D> {
    creators: Vec<Registration<Box<dyn DeviceCreator<D>>>>,
}

impl<D> DeviceFactory<D> {
    /// Each device type is registered at most once.
    #[verifier::type_invariant]
    spec fn one_creator_per_type(self) -> bool {
        keys(self.creators@).no_duplicates()
    }

    /// The device types that a creator is registered for, in the order in
    /// which they were first registered.
    pub closed spec fn registered(&self) -> Seq<DeviceType> {
        keys(self.creators@)
    }

    spec fn place_of(&self, t: DeviceType) -> int {
        choose|i: int| 0 <= i < self.creators@.len() && self.creators@[i].device_type == t
    }

    /// Whether `r` is what the creator registered for the device type `t` may
    /// return for the description.
    pub closed spec fn served(&self, t: DeviceType, info: DeviceInfo, r: YKeyResult<D>) -> bool {
        self.creators@[self.place_of(t)].creator.creates(info, r)
    }

    /// A factory without creators.
    pub fn empty() -> (r: Self)
        ensures
            r.registered() == Seq::<DeviceType>::empty(),
    {
        let r = DeviceFactory { creators: Vec::new() };
        assert(r.registered() =~= Seq::<DeviceType>::empty());
        r
    }

    fn position(&self, device_type: DeviceType) -> (r: Option<usize>)
        ensures
            match r {
                Some(i) => i < self.creators@.len() && self.creators@[i as int].device_type
                    == device_type && self.registered().contains(device_type) && self.place_of(
                    device_type,
                ) == i,
                None => !self.registered().contains(device_type),
            },
    {
        proof {
            use_type_invariant(self);
        }
        let mut i: usize = 0;
        while i < self.creators.len()
            invariant
                i <= self.creators@.len(),
                keys(self.creators@).no_duplicates(),
                forall|k: int| 0 <= k < i ==> self.creators@[k].device_type != device_type,
            decreases self.creators@.len() - i,
        {
            if self.creators[i].device_type == device_type {
                proof {
                    assert(keys(self.creators@)[i as int] == device_type);
                    let p = self.place_of(device_type);
                    assert(0 <= p < self.creators@.len() && self.creators@[p].device_type
                        == device_type);
                    assert(keys(self.creators@)[p] == device_type);
                    assert(p == i);
                }
                return Some(i);
            }
            i = i + 1;
        }
        None
    }

    /// Registers the creator for a device type, in place of the one that was
    /// registered for it before, if any. The creators of the other device
    /// types stay.
    pub fn register(&mut self, device_type: DeviceType, creator: Box<dyn DeviceCreator<D>>)
        ensures
            final(self).registered() == if old(self).registered().contains(device_type) {
                old(self).registered()
            } else {
                old(self).registered().push(device_type)
            },
            final(self).registered().contains(device_type),
            forall|info: DeviceInfo, r: YKeyResult<D>| #[trigger]
                final(self).served(device_type, info, r) <==> creator.creates(info, r),
            forall|t: DeviceType, info: DeviceInfo, r: YKeyResult<D>|
                t != device_type && old(self).registered().contains(t) ==> (#[trigger] final(self).served(t, info, r) <==> old(self).served(t, info, r)),
    {
        proof {
            use_type_invariant(&*self);
        }
        let found = self.position(device_type);
        let entry = Registration::new(device_type, creator);
        let mut creators: Vec<Registration<Box<dyn DeviceCreator<D>>>> = Vec::new();
        assert(keys(creators@) =~= Seq::<DeviceType>::empty());
        std::mem::swap(&mut self.creators, &mut creators);
        let ghost before = creators@;
        let ghost place: int;
        match found {
            Some(i) => {
                creators.set(i, entry);
                proof {
                    place = i as int;
                    assert(keys(creators@) =~= keys(before));
                    assert(keys(before)[i as int] == device_type);
                }
            },
            None => {
                creators.push(entry);
                proof {
                    place = before.len() as int;
                    assert(keys(creators@) =~= keys(before).push(device_type));
                    assert(keys(before).push(device_type)[before.len() as int] == device_type);
                }
            },
        }
        self.creators = creators;
        proof {
            let after = self.creators@;
            assert(keys(after).no_duplicates());
            // the new creator stands at its place
            let p = self.place_of(device_type);
            assert(after[place] == entry);
            assert(keys(after)[place] == device_type);
            assert(0 <= p < after.len() && after[p].device_type == device_type);
            assert(keys(after)[p] == device_type);
            assert(p == place);
            // the others stand where they stood
            assert forall|t: DeviceType, info: DeviceInfo, r: YKeyResult<D>|
                t != device_type && old(self).registered().contains(t) implies (
            #[trigger] self.served(t, info, r) <==> old(self).served(t, info, r)) by {
                let k = choose|k: int| 0 <= k < keys(before).len() && keys(before)[k] == t;
                assert(before[k].device_type == t);
                assert(after[k] == before[k]);
                let q_old = old(self).place_of(t);
                let q_new = self.place_of(t);
                assert(0 <= q_old < before.len() && before[q_old].device_type == t);
                assert(keys(before)[q_old] == t);
                assert(q_old == k);
                assert(keys(after)[k] == t);
                assert(0 <= q_new < after.len() && after[q_new].device_type == t);
                assert(keys(after)[q_new] == t);
                assert(q_new == k);
            }
        }
    }

    /// The device type whose creator builds devices of the given type.
    pub fn resolve(&self, device_type: DeviceType) -> (r: Option<DeviceType>)
        ensures
            r == resolved(self.registered(), device_type),
    {
        match self.position(device_type) {
            Some(_) => Some(device_type),
            None => match self.position(DeviceType::Generic) {
                Some(_) => Some(DeviceType::Generic),
                None => None,
            },
        }
    }

    /// Builds the device for a description. The creator registered for the
    /// device's type builds it; where none is, the creator registered for
    /// `Generic` does; where that is missing too, the type is unsupported.
    /// What a creator returns, a device or an error, comes back as it is.
    pub fn create_device(&self, info: &DeviceInfo) -> (r: YKeyResult<D>)
        ensures
            match resolved(self.registered(), info.device_type) {
                Some(t) => self.served(t, *info, r),
                None => r matches Err(e) && e@ == YKeyErrorView::UnsupportedDevice(
                    info.device_type,
                ),
            },
    {
        match self.position(info.device_type) {
            Some(i) => self.creators[i].creator.create(info),
            None => match self.position(DeviceType::Generic) {
                Some(i) => self.creators[i].creator.create(info),
                None => Err(YKeyError::UnsupportedDevice(info.device_type)),
            },
        }
    }

    /// The device types that a creator is registered for.
    pub fn supported_device_types(&self) -> (r: Vec<DeviceType>)
        ensures
            r@ == self.registered(),
            r@.no_duplicates(),
    {
        proof {
            use_type_invariant(self);
        }
        let mut out: Vec<DeviceType> = Vec::new();
        let mut i: usize = 0;
        while i < self.creators.len()
            invariant
                i <= self.creators@.len(),
                out@ == keys(self.creators@).take(i as int),
            decreases self.creators@.len() - i,
        {
            out.push(self.creators[i].device_type);
            assert(out@ =~= keys(self.creators@).take(i + 1));
            i = i + 1;
        }
        assert(out@ =~= keys(self.creators@));
        out
    }

    /// Whether a creator is registered for the device type.
    pub fn supports_device_type(&self, device_type: &DeviceType) -> (r: bool)
        ensures
            r == self.registered().contains(*device_type),
    {
        self.position(*device_type).is_some()
    }
}

impl DeviceFactory<MockDevice> {
    /// The device types that a new factory has creators for.
    pub open spec fn new_registered() -> Seq<DeviceType> {
        seq![DeviceType::YubiKey, DeviceType::CanoKey, DeviceType::Generic]
    }

    /// Whether a factory has the built-in creators and no others: each
    /// registered creator returns an in-memory device with the description
    /// it was given.
    pub open spec fn is_built_in(factory: Self) -> bool {
        &&& factory.registered() == Self::new_registered()
        &&& forall|t: DeviceType, info: DeviceInfo, r: YKeyResult<MockDevice>|
            Self::new_registered().contains(t) ==> (#[trigger] factory.served(t, info, r)
                <==> mock_created(info, r))
    }

    /// A factory with the creators of in-memory devices for YubiKeys, for
    /// CanoKeys and for any other FIDO2 key.
    pub fn new() -> (r: Self)
        ensures
            Self::is_built_in(r),
    {
        let mut factory = DeviceFactory::empty();
        factory.register(DeviceType::YubiKey, Box::new(YubiKeyCreator));
        factory.register(DeviceType::CanoKey, Box::new(CanoKeyCreator));
        factory.register(DeviceType::Generic, Box::new(GenericFidoCreator));
        proof {
            let s = Self::new_registered();
            assert(factory.registered() =~= s);
            assert(s[0] == DeviceType::YubiKey);
            assert(s[1] == DeviceType::CanoKey);
            assert(s[2] == DeviceType::Generic);
        }
        factory
    }
}

impl Default for DeviceFactory<MockDevice> {
    fn default() -> (r: Self)
        ensures
            Self::is_built_in(r),
    {
        DeviceFactory::new()
    }
}

/// With the creators of a new factory, every device type is served: YubiKey
/// and CanoKey by their own creator, every other type by the generic one.
pub proof fn lemma_new_factory_serves_all(t: DeviceType)
    ensures
        resolved(DeviceFactory::<MockDevice>::new_registered(), t) == Some(
            if t == DeviceType::YubiKey || t == DeviceType::CanoKey {
                t
            } else {
                DeviceType::Generic
            },
        ),
        DeviceFactory::<MockDevice>::new_registered().contains(
            resolved(DeviceFactory::<MockDevice>::new_registered(), t)->Some_0,
        ),
{
    let s = seq![DeviceType::YubiKey, DeviceType::CanoKey, DeviceType::Generic];
    assert(s[0] == DeviceType::YubiKey);
    assert(s[1] == DeviceType::CanoKey);
    assert(s[2] == DeviceType::Generic);
}

/// A factory with the built-in creators builds a device for every
/// description, whatever its type: what `create_device` returns is an
/// in-memory device with that description, not connected.
pub proof fn lemma_built_in_factory_builds(
    factory: DeviceFactory<MockDevice>,
    info: DeviceInfo,
    r: YKeyResult<MockDevice>,
)
    requires
        DeviceFactory::<MockDevice>::is_built_in(factory),
        match resolved(factory.registered(), info.device_type) {
            Some(t) => factory.served(t, info, r),
            None => r is Err,
        },
    ensures
        mock_created(info, r),
{
    lemma_new_factory_serves_all(info.device_type);
}

} // verus!
