//! USB discovery on macOS: reading the report of the system profiler.
//!
//! The report is a JSON tree of USB items. Each item may describe a device
//! and may hold further items. The library reads the tree into [`UsbNode`]s
//! and walks them; running the profiler is left to the caller.

use crate::error::{YKeyError, YKeyErrorView, YKeyResult};
use crate::platform::{add_usb_capabilities, known_type, usb_capabilities};
use crate::text::{hex4, parse_hex_id, parse_hex_u16, prefixed, push_hex4, strip_0x};
use crate::types::{
    opt_text, DeviceInfo, DeviceInfoView, DeviceType, Timestamp, TransportType,
};
use vstd::prelude::*;
use vstd::string::*;

verus! {

/// `serde_json::Error`, the error of a report that is not JSON. The library
/// only asks it for its text.
#[verifier::external_type_specification]
#[verifier::external_body]
pub struct ExJsonError(serde_json::Error);

/// One item of the report, with what the library reads of it: four of its
/// fields, each present only if the item has it as a string, and the items
/// below it.
pub struct UsbNode {
    /// The field `_name`.
    pub name: Option<String>,
    /// The field `manufacturer`.
    pub manufacturer: Option<String>,
    /// The field `product_id`.
    pub product_id: Option<String>,
    /// The field `vendor_id`.
    pub vendor_id: Option<String>,
    /// The entries of the field `_items`, if it is an array.
    pub items: Vec<UsbNode>,
}

/// What a [`UsbNode`] holds, with each string as its text.
pub struct UsbNodeView {
    pub name: Option<Seq<char>>,
    pub manufacturer: Option<Seq<char>>,
    pub product_id: Option<Seq<char>>,
    pub vendor_id: Option<Seq<char>>,
    pub items: Seq<UsbNodeView>,
}

/// What an item holds.
pub open spec fn node_view(node: UsbNode) -> UsbNodeView
    decreases node, 1int,
{
    UsbNodeView {
        name: opt_text(node.name),
        manufacturer: opt_text(node.manufacturer),
        product_id: opt_text(node.product_id),
        vendor_id: opt_text(node.vendor_id),
        items: node_views_below(node, node.items@.len() as int),
    }
}

/// What the first `n` items below an item hold.
pub open spec fn node_views_below(node: UsbNode, n: int) -> Seq<UsbNodeView>
    decreases node, 0int, n,
{
    if 0 < n <= node.items@.len() {
        node_views_below(node, n - 1).push(node_view(node.items@[n - 1]))
    } else {
        Seq::empty()
    }
}

/// What the items of a list hold.
pub open spec fn node_views(nodes: Seq<UsbNode>) -> Seq<UsbNodeView> {
    Seq::new(nodes.len(), |i: int| node_view(nodes[i]))
}

impl View for UsbNode {
    type V = UsbNodeView;

    open spec fn view(&self) -> UsbNodeView {
        node_view(*self)
    }
}

proof fn lemma_node_views_below(node: UsbNode, n: int)
    requires
        0 <= n <= node.items@.len(),
    ensures
        node_views_below(node, n) == node_views(node.items@.take(n)),
    decreases n,
{
    if n > 0 {
        lemma_node_views_below(node, n - 1);
        assert(node_views_below(node, n) =~= node_views(node.items@.take(n)));
    } else {
        assert(node_views_below(node, n) =~= node_views(node.items@.take(n)));
    }
}

/// The items below an item hold what the item's view says, place by place.
pub proof fn lemma_node_view_items(node: UsbNode)
    ensures
        node@.items == node_views(node.items@),
{
    lemma_node_views_below(node, node.items@.len() as int);
    assert(node.items@.take(node.items@.len() as int) =~= node.items@);
}

/// The USB part of the report.
pub enum UsbData {
    /// A list of items.
    Array(Vec<UsbNode>),
    /// One item.
    Object(UsbNode),
    /// Neither: nothing to read.
    Other,
}

/// What a [`UsbData`] holds.
pub enum UsbDataView {
    Array(Seq<UsbNodeView>),
    Object(UsbNodeView),
    Other,
}

impl View for UsbData {
    type V = UsbDataView;

    open spec fn view(&self) -> UsbDataView {
        match *self {
            UsbData::Array(nodes) => UsbDataView::Array(node_views(nodes@)),
            UsbData::Object(node) => UsbDataView::Object(node@),
            UsbData::Other => UsbDataView::Other,
        }
    }
}

/// A JSON value as far as the library reads it: a string with its text, an
/// array with its entries, an object with its members by their keys, or
/// anything else.
pub enum JsonModel {
    Text(Seq<char>),
    Array(Seq<JsonModel>),
    Object(Map<Seq<char>, JsonModel>),
    Other,
}

/// What a `serde_json::Value` holds.
pub uninterp spec fn json_model(value: serde_json::Value) -> JsonModel;

/// What `serde_json::from_slice` makes of JSON text: the value that the text
/// stands for, or none if the text is not JSON.
pub uninterp spec fn json_parsed(bytes: Seq<u8>) -> Option<JsonModel>;

/// The member of an object under a key; none if there is no such member or
/// the value is no object.
pub open spec fn member(m: JsonModel, key: Seq<char>) -> Option<JsonModel> {
    match m {
        JsonModel::Object(members) => if members.contains_key(key) {
            Some(members[key])
        } else {
            None
        },
        _ => None,
    }
}

/// The text of a string; none if the value is no string.
pub open spec fn text_of(m: JsonModel) -> Option<Seq<char>> {
    match m {
        JsonModel::Text(text) => Some(text),
        _ => None,
    }
}

/// The entries of an array; none if the value is no array.
pub open spec fn elements(m: JsonModel) -> Option<Seq<JsonModel>> {
    match m {
        JsonModel::Array(items) => Some(items),
        _ => None,
    }
}

/// The text of the member under a key, if the value is an object that has
/// the member as a string.
pub open spec fn text_member(m: JsonModel, key: Seq<char>) -> Option<Seq<char>> {
    match member(m, key) {
        Some(field) => text_of(field),
        None => None,
    }
}

/// The items below an item: the entries of its member `_items`, if that is
/// an array.
pub open spec fn items_below(m: JsonModel) -> Seq<JsonModel> {
    match member(m, "_items"@) {
        Some(JsonModel::Array(items)) => items,
        _ => Seq::empty(),
    }
}

/// The item that a JSON value is read as.
pub open spec fn node_of(m: JsonModel) -> UsbNodeView
    decreases m, 1int,
{
    UsbNodeView {
        name: text_member(m, "_name"@),
        manufacturer: text_member(m, "manufacturer"@),
        product_id: text_member(m, "product_id"@),
        vendor_id: text_member(m, "vendor_id"@),
        items: nodes_below(m, items_below(m).len() as int),
    }
}

/// The items that the first `n` values below a JSON value are read as.
pub open spec fn nodes_below(m: JsonModel, n: int) -> Seq<UsbNodeView>
    decreases m, 0int, n,
{
    if 0 < n <= items_below(m).len() {
        nodes_below(m, n - 1).push(node_of(items_below(m)[n - 1]))
    } else {
        Seq::empty()
    }
}

/// The items that the values of a list are read as.
pub open spec fn nodes_of(items: Seq<JsonModel>) -> Seq<UsbNodeView> {
    Seq::new(items.len(), |i: int| node_of(items[i]))
}

/// The USB data that a JSON value is read as: the items of an array, the
/// one item that an object is, or nothing.
pub open spec fn data_of(m: JsonModel) -> UsbDataView {
    match m {
        JsonModel::Array(items) => UsbDataView::Array(nodes_of(items)),
        JsonModel::Object(_) => UsbDataView::Object(node_of(m)),
        _ => UsbDataView::Other,
    }
}

/// The USB data of a report: what its member `SPUSBDataType` is read as, and
/// nothing if the report has no such member.
pub open spec fn report_data(m: JsonModel) -> UsbDataView {
    match member(m, "SPUSBDataType"@) {
        Some(data) => data_of(data),
        None => UsbDataView::Other,
    }
}

proof fn lemma_nodes_below(m: JsonModel, n: int)
    requires
        0 <= n <= items_below(m).len(),
    ensures
        nodes_below(m, n) == nodes_of(items_below(m).take(n)),
    decreases n,
{
    if n > 0 {
        lemma_nodes_below(m, n - 1);
    }
    assert(nodes_below(m, n) =~= nodes_of(items_below(m).take(n)));
}

/// Parses JSON text with `serde_json::from_slice`: the value that the text
/// stands for, or an error if the text is not JSON.
#[verifier::external_body]
fn json_from_slice(bytes: &[u8]) -> (r: Result<serde_json::Value, serde_json::Error>)
    ensures
        match r {
            Ok(value) => json_parsed(bytes@) == Some(json_model(value)),
            Err(_) => json_parsed(bytes@) is None,
        },
{
    serde_json::from_slice(bytes)
}

/// The text of a `serde_json::Error`, as its `Display` gives it. Nothing is
/// claimed of the text.
#[verifier::external_body]
fn json_error_text(error: &serde_json::Error) -> String {
    error.to_string()
}

/// Looks a key up with `serde_json::Value::get`: the member of an object
/// under the key; none if the object has no such member or the value is no
/// object.
#[verifier::external_body]
fn json_get<'a>(value: &'a serde_json::Value, key: &str) -> (r: Option<&'a serde_json::Value>)
    ensures
        match r {
            Some(field) => member(json_model(*value), key@) == Some(json_model(*field)),
            None => member(json_model(*value), key@) is None,
        },
{
    value.get(key)
}

/// The string that a JSON value is, by `serde_json::Value::as_str`; none if
/// it is no string.
#[verifier::external_body]
fn json_as_string(value: &serde_json::Value) -> (r: Option<String>)
    ensures
        opt_text(r) == text_of(json_model(*value)),
{
    value.as_str().map(|s| s.to_string())
}

/// The entries of a JSON array, by `serde_json::Value::as_array`; none if
/// the value is no array.
#[verifier::external_body]
fn json_as_array(value: &serde_json::Value) -> (r: Option<&Vec<serde_json::Value>>)
    ensures
        match r {
            Some(entries) => elements(json_model(*value)) matches Some(items) && items.len()
                == entries@.len() && forall|i: int|
                0 <= i < entries@.len() ==> json_model(#[trigger] entries@[i]) == items[i],
            None => elements(json_model(*value)) is None,
        },
{
    value.as_array()
}

/// Whether a JSON value is an object, by `serde_json::Value::is_object`.
#[verifier::external_body]
fn json_is_object(value: &serde_json::Value) -> (r: bool)
    ensures
        r == json_model(*value) is Object,
{
    value.is_object()
}

/// The text of the member under a key, if the value is an object that has
/// the member as a string.
fn json_text(value: &serde_json::Value, key: &str) -> (r: Option<String>)
    ensures
        opt_text(r) == text_member(json_model(*value), key@),
{
    match json_get(value, key) {
        Some(field) => json_as_string(field),
        None => None,
    }
}

/// Reads one item of the report: its four texts, and the items below it,
/// each read in the same way.
fn usb_node(item: &serde_json::Value) -> (r: UsbNode)
    ensures
        r@ == node_of(json_model(*item)),
    decreases json_model(*item),
{
    let ghost m = json_model(*item);
    let mut items: Vec<UsbNode> = Vec::new();
    match json_get(item, "_items") {
        Some(children) => match json_as_array(children) {
            Some(entries) => {
                let mut i: usize = 0;
                while i < entries.len()
                    invariant
                        i <= entries@.len(),
                        m == json_model(*item),
                        items_below(m).len() == entries@.len(),
                        forall|k: int|
                            0 <= k < entries@.len() ==> json_model(#[trigger] entries@[k])
                                == items_below(m)[k],
                        items@.len() == i,
                        forall|k: int|
                            0 <= k < i ==> (#[trigger] items@[k])@ == node_of(items_below(m)[k]),
                    decreases entries@.len() - i,
                {
                    assert(items_below(m)[i as int] == json_model(entries@[i as int]));
                    let child = usb_node(&entries[i]);
                    items.push(child);
                    i = i + 1;
                }
            },
            None => {},
        },
        None => {},
    }
    let r = UsbNode {
        name: json_text(item, "_name"),
        manufacturer: json_text(item, "manufacturer"),
        product_id: json_text(item, "product_id"),
        vendor_id: json_text(item, "vendor_id"),
        items,
    };
    proof {
        lemma_node_view_items(r);
        lemma_nodes_below(m, items_below(m).len() as int);
        assert(items_below(m).take(items_below(m).len() as int) =~= items_below(m));
        assert(node_views(r.items@) =~= nodes_of(items_below(m)));
    }
    r
}

/// Reads the USB part of the report: the items of an array, the one item
/// that an object is, or nothing.
fn usb_data(value: &serde_json::Value) -> (r: UsbData)
    ensures
        r@ == data_of(json_model(*value)),
{
    match json_as_array(value) {
        Some(entries) => {
            let ghost models = elements(json_model(*value))->Some_0;
            let mut nodes: Vec<UsbNode> = Vec::new();
            let mut i: usize = 0;
            while i < entries.len()
                invariant
                    i <= entries@.len(),
                    models.len() == entries@.len(),
                    forall|k: int|
                        0 <= k < entries@.len() ==> json_model(#[trigger] entries@[k]) == models[k],
                    nodes@.len() == i,
                    forall|k: int| 0 <= k < i ==> (#[trigger] nodes@[k])@ == node_of(models[k]),
                decreases entries@.len() - i,
            {
                let node = usb_node(&entries[i]);
                nodes.push(node);
                i = i + 1;
            }
            assert(node_views(nodes@) =~= nodes_of(models));
            UsbData::Array(nodes)
        },
        None => if json_is_object(value) {
            UsbData::Object(usb_node(value))
        } else {
            UsbData::Other
        },
    }
}

/// The identifier of a USB device: the device type in lower case, the vendor
/// identifier and the product identifier, each as four hexadecimal digits,
/// joined by hyphens.
pub open spec fn usb_device_id(device_type: DeviceType, vendor_id: u16, product_id: u16) -> Seq<
    char,
> {
    device_type.slug_text() + "-"@ + hex4(vendor_id as int) + "-"@ + hex4(product_id as int)
}

/// A text field, or the default where the item does not have it.
pub open spec fn text_or(field: Option<Seq<char>>, default: Seq<char>) -> Seq<char> {
    match field {
        Some(text) => text,
        None => default,
    }
}

/// The vendor identifier, product identifier and device type of the device
/// that an item describes: the item has both identifiers as strings, they
/// are 16-bit numbers in hexadecimal after any `0x`, and the pair is a known
/// FIDO2 device.
pub open spec fn node_ids(node: UsbNodeView) -> Option<(u16, u16, DeviceType)> {
    match (node.product_id, node.vendor_id) {
        (Some(p), Some(v)) => match (parse_hex_u16(strip_0x(p)), parse_hex_u16(strip_0x(v))) {
            (Some(product_id), Some(vendor_id)) => match known_type(vendor_id, product_id) {
                Some(device_type) => Some((vendor_id, product_id, device_type)),
                None => None,
            },
            _ => None,
        },
        _ => None,
    }
}

/// The description of the device with the given identifiers that an item
/// describes, seen at `last_seen`.
pub open spec fn node_info(
    node: UsbNodeView,
    vendor_id: u16,
    product_id: u16,
    device_type: DeviceType,
    last_seen: Timestamp,
) -> DeviceInfoView {
    DeviceInfoView {
        id: usb_device_id(device_type, vendor_id, product_id),
        name: text_or(node.name, "Unknown Device"@),
        manufacturer: text_or(node.manufacturer, "Unknown"@),
        product_name: text_or(node.name, "Unknown"@),
        serial_number: None,
        vendor_id,
        product_id,
        device_type,
        transport: TransportType::Usb,
        capabilities: usb_capabilities(device_type),
        firmware_version: None,
        last_seen,
    }
}

/// A description with the time at which it was made set aside.
pub open spec fn timeless(info: DeviceInfoView) -> DeviceInfoView {
    DeviceInfoView { last_seen: Timestamp { secs: 0, nanos: 0 }, ..info }
}

/// The descriptions of a list, each with its time set aside.
pub open spec fn timeless_all(devices: Seq<DeviceInfo>) -> Seq<DeviceInfoView> {
    Seq::new(devices.len(), |i: int| timeless(devices[i]@))
}

/// The device that the item itself describes, if it describes one.
pub open spec fn own_device(node: UsbNodeView) -> Seq<DeviceInfoView> {
    match node_ids(node) {
        Some((vendor_id, product_id, device_type)) => seq![
            timeless(
                node_info(node, vendor_id, product_id, device_type, Timestamp { secs: 0, nanos: 0 }),
            ),
        ],
        None => Seq::empty(),
    }
}

/// The devices that an item and everything below it describe: the item's
/// own device first, then those of the items below it, in their order.
pub open spec fn described(node: UsbNodeView) -> Seq<DeviceInfoView>
    decreases node, 1int,
{
    own_device(node) + described_below(node, node.items.len() as int)
}

/// The devices that the first `n` items below an item describe.
pub open spec fn described_below(node: UsbNodeView, n: int) -> Seq<DeviceInfoView>
    decreases node, 0int, n,
{
    if 0 < n <= node.items.len() {
        described_below(node, n - 1) + described(node.items[n - 1])
    } else {
        Seq::empty()
    }
}

/// The devices that the first `n` items of a list describe.
pub open spec fn described_list(nodes: Seq<UsbNodeView>, n: int) -> Seq<DeviceInfoView>
    decreases n,
{
    if 0 < n <= nodes.len() {
        described_list(nodes, n - 1) + described(nodes[n - 1])
    } else {
        Seq::empty()
    }
}

/// The devices that the USB part of the report describes.
pub open spec fn described_data(data: UsbDataView) -> Seq<DeviceInfoView> {
    match data {
        UsbDataView::Array(nodes) => described_list(nodes, nodes.len() as int),
        UsbDataView::Object(node) => described(node),
        UsbDataView::Other => Seq::empty(),
    }
}

/// Whether each entry from the place `from` on was seen at a valid point in
/// time.
pub open spec fn seen_validly(devices: Seq<DeviceInfo>, from: int) -> bool {
    forall|k: int| from <= k < devices.len() ==> (#[trigger] devices[k]).last_seen.wf()
}

/// Whether a text starts with a prefix.
pub open spec fn starts_with(text: Seq<char>, prefix: Seq<char>) -> bool {
    text.len() >= prefix.len() && text.take(prefix.len() as int) == prefix
}

/// Whether a description is that of a known FIDO2 device on USB: its type is
/// the one of its vendor and product identifier, its identifier is made of
/// the three, and it has the capabilities of its type.
pub open spec fn is_usb_fido_device(info: DeviceInfoView) -> bool {
    &&& known_type(info.vendor_id, info.product_id) == Some(info.device_type)
    &&& info.id == usb_device_id(info.device_type, info.vendor_id, info.product_id)
    &&& info.transport == TransportType::Usb
    &&& info.capabilities == usb_capabilities(info.device_type)
    &&& info.serial_number is None
    &&& info.firmware_version is None
}

/// Whether every description is that of a known FIDO2 device on USB.
pub open spec fn all_usb_fido(devices: Seq<DeviceInfoView>) -> bool {
    forall|i: int| 0 <= i < devices.len() ==> is_usb_fido_device(#[trigger] devices[i])
}

/// Every device that an item and the items below it describe is a known
/// FIDO2 device on USB.
pub proof fn lemma_described_are_fido(node: UsbNodeView)
    ensures
        all_usb_fido(described(node)),
    decreases node, 1int,
{
    lemma_described_below_are_fido(node, node.items.len() as int);
}

proof fn lemma_described_below_are_fido(node: UsbNodeView, n: int)
    ensures
        all_usb_fido(described_below(node, n)),
    decreases node, 0int, n,
{
    if 0 < n <= node.items.len() {
        lemma_described_below_are_fido(node, n - 1);
        lemma_described_are_fido(node.items[n - 1]);
    }
}

proof fn lemma_described_list_are_fido(nodes: Seq<UsbNodeView>, n: int)
    ensures
        all_usb_fido(described_list(nodes, n)),
    decreases n,
{
    if 0 < n <= nodes.len() {
        lemma_described_list_are_fido(nodes, n - 1);
        lemma_described_are_fido(nodes[n - 1]);
    }
}

/// Every device that the USB part of a report describes is a known FIDO2
/// device on USB.
pub proof fn lemma_described_data_are_fido(data: UsbDataView)
    ensures
        all_usb_fido(described_data(data)),
{
    match data {
        UsbDataView::Array(nodes) => {
            lemma_described_list_are_fido(nodes, nodes.len() as int);
        },
        UsbDataView::Object(node) => {
            lemma_described_are_fido(node);
        },
        UsbDataView::Other => {},
    }
}

/// Device information for a front end: the description with each
/// classification as text, and whether the device is connected.
#[derive(Debug, Clone)]
pub struct FrontendDeviceInfo {
    pub id: String,
    pub name: String,
    pub manufacturer: String,
    pub product_name: String,
    pub device_type: String,
    pub transport: String,
    pub vendor_id: u16,
    pub product_id: u16,
    pub capabilities: Vec<String>,
    pub is_connected: bool,
}

impl vstd::std_specs::convert::FromSpecImpl<DeviceInfo> for FrontendDeviceInfo {
    open spec fn obeys_from_spec() -> bool {
        false
    }

    open spec fn from_spec(info: DeviceInfo) -> Self {
        arbitrary()
    }
}

impl From<DeviceInfo> for FrontendDeviceInfo {
    /// The description for a front end: the texts as they are, the device
    /// type, the transport and each capability by its name, and not
    /// connected.
    fn from(info: DeviceInfo) -> (r: Self)
        ensures
            r.id@ == info.id@,
            r.name@ == info.name@,
            r.manufacturer@ == info.manufacturer@,
            r.product_name@ == info.product_name@,
            r.device_type@ == info.device_type.name_text(),
            r.transport@ == info.transport.name_text(),
            r.vendor_id == info.vendor_id,
            r.product_id == info.product_id,
            r.capabilities@.len() == info.capabilities@.len(),
            forall|i: int|
                0 <= i < info.capabilities@.len() ==> (#[trigger] r.capabilities@[i])@
                    == info.capabilities@[i].name_text(),
            !r.is_connected,
    {
        let mut capabilities: Vec<String> = Vec::new();
        let mut i: usize = 0;
        while i < info.capabilities.len()
            invariant
                i <= info.capabilities@.len(),
                capabilities@.len() == i,
                forall|k: int|
                    0 <= k < i ==> (#[trigger] capabilities@[k])@
                        == info.capabilities@[k].name_text(),
            decreases info.capabilities@.len() - i,
        {
            capabilities.push(String::from_str(info.capabilities[i].name()));
            i = i + 1;
        }
        FrontendDeviceInfo {
            device_type: String::from_str(info.device_type.name()),
            transport: String::from_str(info.transport.name()),
            vendor_id: info.vendor_id,
            product_id: info.product_id,
            capabilities,
            is_connected: false,
            id: info.id,
            name: info.name,
            manufacturer: info.manufacturer,
            product_name: info.product_name,
        }
    }
}

/// macOS-specific USB device discovery, on the report of the system
/// profiler.
pub struct MacOSUsbDiscovery;

impl MacOSUsbDiscovery {
    /// The discovery source.
    pub fn new() -> (r: Self) {
        MacOSUsbDiscovery
    }

    /// The device type of a vendor and product identifier, if the pair is a
    /// known FIDO2 device.
    pub fn identify_device_type(vendor_id: u16, product_id: u16) -> (r: Option<DeviceType>)
        ensures
            r == known_type(vendor_id, product_id),
    {
        if vendor_id == 0x1050 && (product_id == 0x0010 || product_id == 0x0018 || product_id
            == 0x0030 || product_id == 0x0407 || product_id == 0x0410) {
            Some(DeviceType::YubiKey)
        } else if vendor_id == 0x20A0 && product_id == 0x42D4 {
            Some(DeviceType::CanoKey)
        } else if vendor_id == 0x20A0 && (product_id == 0x42B1 || product_id == 0x42B2) {
            Some(DeviceType::Nitrokey)
        } else if (vendor_id == 0x0483 && product_id == 0xA2CA) || (vendor_id == 0x1209
            && product_id == 0x5070) {
            Some(DeviceType::SoloKey)
        } else {
            None
        }
    }

    /// The identifier of a USB device.
    pub fn device_id(device_type: DeviceType, vendor_id: u16, product_id: u16) -> (r: String)
        ensures
            r@ == usb_device_id(device_type, vendor_id, product_id),
    {
        let mut id = String::from_str(device_type.slug());
        id.append("-");
        push_hex4(&mut id, vendor_id);
        id.append("-");
        push_hex4(&mut id, product_id);
        id
    }

    fn identify(item: &UsbNode) -> (r: Option<(u16, u16, DeviceType)>)
        ensures
            r == node_ids(item@),
    {
        match (&item.product_id, &item.vendor_id) {
            (Some(p), Some(v)) => match (parse_hex_id(p.as_str()), parse_hex_id(v.as_str())) {
                (Some(product_id), Some(vendor_id)) => match Self::identify_device_type(
                    vendor_id,
                    product_id,
                ) {
                    Some(device_type) => Some((vendor_id, product_id, device_type)),
                    None => None,
                },
                _ => None,
            },
            _ => None,
        }
    }

    fn text_or(field: &Option<String>, default: &str) -> (r: String)
        ensures
            r@ == text_or(opt_text(*field), default@),
    {
        match field {
            Some(s) => s.clone(),
            None => String::from_str(default),
        }
    }

    /// Walks one item: adds the device that the item describes, if it
    /// describes one, and then the devices of the items below it, in their
    /// order. What the list held before stays in front as it was.
    pub fn parse_usb_item(item: &UsbNode, devices: &mut Vec<DeviceInfo>)
        ensures
            final(devices)@.len() == old(devices)@.len() + described(item@).len(),
            final(devices)@.take(old(devices)@.len() as int) == old(devices)@,
            timeless_all(final(devices)@) == timeless_all(old(devices)@) + described(item@),
            seen_validly(final(devices)@, old(devices)@.len() as int),
        decreases item,
    {
        match Self::identify(item) {
            Some((vendor_id, product_id, device_type)) => {
                let name = Self::text_or(&item.name, "Unknown Device");
                let manufacturer = Self::text_or(&item.manufacturer, "Unknown");
                let product = Self::text_or(&item.name, "Unknown");
                let device_id = Self::device_id(device_type, vendor_id, product_id);
                let mut info = DeviceInfo::new(
                    device_id,
                    name,
                    manufacturer,
                    product,
                    vendor_id,
                    product_id,
                    device_type,
                    TransportType::Usb,
                );
                add_usb_capabilities(&mut info);
                proof {
                    assert(timeless(info@) == own_device(item@)[0]);
                }
                devices.push(info);
            },
            None => {},
        }
        proof {
            assert(timeless_all(devices@) =~= timeless_all(old(devices)@) + own_device(item@));
            assert(devices@.take(old(devices)@.len() as int) =~= old(devices)@);
        }
        proof {
            lemma_node_view_items(*item);
        }
        let mut i: usize = 0;
        while i < item.items.len()
            invariant
                i <= item.items@.len(),
                item@.items == node_views(item.items@),
                devices@.len() >= old(devices)@.len(),
                seen_validly(devices@, old(devices)@.len() as int),
                devices@.len() == old(devices)@.len() + own_device(item@).len() + described_below(
                    item@,
                    i as int,
                ).len(),
                devices@.take(old(devices)@.len() as int) == old(devices)@,
                timeless_all(devices@) == timeless_all(old(devices)@) + own_device(item@)
                    + described_below(item@, i as int),
            decreases item.items@.len() - i,
        {
            let ghost before = devices@;
            Self::parse_usb_item(&item.items[i], devices);
            proof {
                assert forall|k: int| old(devices)@.len() <= k < devices@.len() implies (
                #[trigger] devices@[k]).last_seen.wf() by {
                    if k < before.len() {
                        assert(devices@.take(before.len() as int)[k] == before[k]);
                    }
                }
                assert(devices@.take(old(devices)@.len() as int) =~= before.take(
                    old(devices)@.len() as int,
                )) by {
                    assert(devices@.take(before.len() as int) == before);
                    assert forall|k: int| 0 <= k < old(devices)@.len() implies devices@[k]
                        == before[k] by {
                        assert(devices@.take(before.len() as int)[k] == before[k]);
                    }
                }
                assert(timeless_all(devices@) =~= timeless_all(old(devices)@) + own_device(item@)
                    + described_below(item@, i + 1));
            }
            i = i + 1;
        }
        proof {
            assert(timeless_all(devices@) =~= timeless_all(old(devices)@) + described(item@));
        }
    }

    /// Walks the USB part of the report: every item of a list in its order,
    /// or the one item; anything else holds no device.
    pub fn parse_usb_data(data: &UsbData, devices: &mut Vec<DeviceInfo>)
        ensures
            final(devices)@.len() >= old(devices)@.len(),
            final(devices)@.take(old(devices)@.len() as int) == old(devices)@,
            timeless_all(final(devices)@) == timeless_all(old(devices)@) + described_data(data@),
            seen_validly(final(devices)@, old(devices)@.len() as int),
    {
        match data {
            UsbData::Array(nodes) => {
                let mut i: usize = 0;
                assert(devices@.take(old(devices)@.len() as int) =~= old(devices)@);
                assert(timeless_all(devices@) =~= timeless_all(old(devices)@) + described_list(
                    node_views(nodes@),
                    0,
                ));
                while i < nodes.len()
                    invariant
                        i <= nodes@.len(),
                        devices@.len() >= old(devices)@.len(),
                        seen_validly(devices@, old(devices)@.len() as int),
                        devices@.take(old(devices)@.len() as int) == old(devices)@,
                        timeless_all(devices@) == timeless_all(old(devices)@) + described_list(
                            node_views(nodes@),
                            i as int,
                        ),
                    decreases nodes@.len() - i,
                {
                    let ghost before = devices@;
                    Self::parse_usb_item(&nodes[i], devices);
                    proof {
                        assert forall|k: int| old(devices)@.len() <= k < devices@.len() implies (
                        #[trigger] devices@[k]).last_seen.wf() by {
                            if k < before.len() {
                                assert(devices@.take(before.len() as int)[k] == before[k]);
                            }
                        }
                        assert(devices@.take(old(devices)@.len() as int) =~= before.take(
                            old(devices)@.len() as int,
                        )) by {
                            assert(devices@.take(before.len() as int) == before);
                            assert forall|k: int| 0 <= k < old(devices)@.len() implies devices@[k]
                                == before[k] by {
                                assert(devices@.take(before.len() as int)[k] == before[k]);
                            }
                        }
                        assert(timeless_all(devices@) =~= timeless_all(old(devices)@)
                            + described_list(node_views(nodes@), i + 1));
                    }
                    i = i + 1;
                }
            },
            UsbData::Object(node) => {
                Self::parse_usb_item(node, devices);
            },
            UsbData::Other => {
                assert(devices@.take(old(devices)@.len() as int) =~= old(devices)@);
                assert(timeless_all(devices@) =~= timeless_all(old(devices)@) + described_data(data@));
            },
        }
    }

    /// The devices in the report of the system profiler, given the bytes
    /// that the profiler wrote. A report that is JSON yields the devices that
    /// its USB data describes, in the order of the walk; each is a known
    /// FIDO2 device on USB. A report that is not JSON fails with a
    /// communication error.
    pub fn scan_usb_devices(&self, report: &[u8]) -> (r: YKeyResult<Vec<DeviceInfo>>)
        ensures
            match json_parsed(report@) {
                Some(m) => r matches Ok(devices) && timeless_all(devices@) == described_data(
                    report_data(m),
                ) && all_usb_fido(timeless_all(devices@)) && seen_validly(devices@, 0),
                None => r matches Err(e) && e@ matches YKeyErrorView::CommunicationError(message)
                    && starts_with(message, "Failed to parse system_profiler output: "@),
            },
    {
        match json_from_slice(report) {
            Err(e) => {
                let text = json_error_text(&e);
                let message = prefixed("Failed to parse system_profiler output: ", text.as_str());
                assert(message@.take("Failed to parse system_profiler output: "@.len() as int)
                    =~= "Failed to parse system_profiler output: "@);
                Err(YKeyError::CommunicationError(message))
            },
            Ok(json) => {
                let mut devices: Vec<DeviceInfo> = Vec::new();
                match json_get(&json, "SPUSBDataType") {
                    Some(value) => {
                        let data = usb_data(value);
                        Self::parse_usb_data(&data, &mut devices);
                    },
                    None => {},
                }
                proof {
                    lemma_described_data_are_fido(report_data(json_model(json)));
                    assert(timeless_all(devices@) =~= described_data(
                        report_data(json_model(json)),
                    ));
                }
                Ok(devices)
            },
        }
    }
}

} // verus!
