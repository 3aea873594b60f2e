//! USB transport decisions: Android Open Accessory requests, device and
//! endpoint selection, and spotting USB host controllers on PCI.
use vstd::prelude::*;
use vstd::string::StringSliceAdditionalSpecFns;

verus! {

pub const AOA_GET_PROTOCOL: u8 = 51;

pub const AOA_SEND_STRING: u8 = 52;

pub const AOA_START: u8 = 53;

pub const GOOGLE_VID: u16 = 0x18D1;

pub const ACCESSORY_PID: u16 = 0x2D00;

pub const ACCESSORY_ADB_PID: u16 = 0x2D01;

/// Milliseconds that each accessory control request may take.
pub const AOA_TIMEOUT_MS: u32 = 2000;

#[derive(Debug, Default, Clone, Copy)]
pub struct UsbDeviceRequest {
    pub request_type: u8,
    pub request: u8,
    pub value: u16,
    pub index: u16,
    pub length: u16,
}

#[derive(Debug, Clone, Copy, PartialEq, Eq, Structural)]
pub enum UsbDataDirection {
    NoData,
    DataIn,
    DataOut,
}

impl UsbDataDirection {
    /// The firmware's code for the direction.
    pub fn as_u32(self) -> (r: u32)
        ensures
            r == match self {
                UsbDataDirection::NoData => 0u32,
                UsbDataDirection::DataIn => 1u32,
                UsbDataDirection::DataOut => 2u32,
            },
    {
        match self {
            UsbDataDirection::NoData => 0,
            UsbDataDirection::DataIn => 1,
            UsbDataDirection::DataOut => 2,
        }
    }
}

#[derive(Debug, Default, Clone, Copy)]
pub struct UsbDeviceDescriptor {
    pub length: u8,
    pub descriptor_type: u8,
    pub bcd_usb: u16,
    pub device_class: u8,
    pub device_sub_class: u8,
    pub device_protocol: u8,
    pub max_packet_size0: u8,
    pub id_vendor: u16,
    pub id_product: u16,
    pub bcd_device: u16,
    pub i_manufacturer: u8,
    pub i_product: u8,
    pub i_serial_number: u8,
    pub num_configurations: u8,
}

#[derive(Debug, Default, Clone, Copy)]
pub struct UsbInterfaceDescriptor {
    pub length: u8,
    pub descriptor_type: u8,
    pub interface_number: u8,
    pub alternate_setting: u8,
    pub num_endpoints: u8,
    pub interface_class: u8,
    pub interface_sub_class: u8,
    pub interface_protocol: u8,
    pub i_interface: u8,
}

#[derive(Debug, Default, Clone, Copy)]
pub struct UsbEndpointDescriptor {
    pub length: u8,
    pub descriptor_type: u8,
    pub endpoint_address: u8,
    pub attributes: u8,
    pub max_packet_size: u16,
    pub interval: u8,
}

/// An IN endpoint (address bit 7) with bulk transfers (attributes 2 in the
/// low two bits).
pub open spec fn is_bulk_in(ep: UsbEndpointDescriptor) -> bool {
    ep.endpoint_address >= 0x80 && ep.attributes % 4 == 2
}

/// The first bulk IN endpoint from `i` on.
pub open spec fn bulk_in_from(eps: Seq<UsbEndpointDescriptor>, i: int) -> Option<u8>
    decreases eps.len() - i,
{
    if i < 0 || i >= eps.len() {
        None
    } else if is_bulk_in(eps[i]) {
        Some(eps[i].endpoint_address)
    } else {
        bulk_in_from(eps, i + 1)
    }
}

/// Whether the PCI class register (offset 0x08) names a USB host
/// controller: class 0x0C, subclass 0x03.
pub open spec fn is_usb_controller_class(reg: u32) -> bool {
    reg / 0x1000000 == 0x0C && (reg / 0x10000) % 256 == 0x03
}

pub fn is_usb_controller(class_reg: u32) -> (r: bool)
    ensures
        r == is_usb_controller_class(class_reg),
{
    class_reg / 0x1000000 == 0x0C && (class_reg / 0x10000) % 256 == 0x03
}

/// The six identity strings sent to a phone, by index: manufacturer,
/// model, description, version, URI, serial.
pub fn aoa_identity(index: u16) -> (r: &'static str)
    requires
        index < 6,
    ensures
        index == 0 ==> r@ == "Rignite"@,
        index == 1 ==> r@ == "RDF"@,
        index == 2 ==> r@ == "Rignite Device Flasher"@,
        index == 3 ==> r@ == "1.0"@,
        index == 4 ==> r@ == "https://rignite.io"@,
        index == 5 ==> r@ == "1234567890"@,
{
    if index == 0 {
        "Rignite"
    } else if index == 1 {
        "RDF"
    } else if index == 2 {
        "Rignite Device Flasher"
    } else if index == 3 {
        "1.0"
    } else if index == 4 {
        "https://rignite.io"
    } else {
        "1234567890"
    }
}

/// A vendor IN request for the accessory protocol version (2 bytes).
pub fn aoa_get_protocol_request() -> (r: UsbDeviceRequest)
    ensures
        r.request_type == 0xC0,
        r.request == AOA_GET_PROTOCOL,
        r.value == 0,
        r.index == 0,
        r.length == 2,
{
    UsbDeviceRequest { request_type: 0xC0, request: AOA_GET_PROTOCOL, value: 0, index: 0, length: 2 }
}

/// The payload of an identity string: its bytes and a NUL.
pub fn aoa_string_payload(s: &str) -> (r: Vec<u8>)
    requires
        s.spec_bytes().len() < 65535,
    ensures
        r@ == s.spec_bytes().push(0),
{
    let bytes = s.as_bytes();
    let mut out: Vec<u8> = Vec::new();
    let mut i: usize = 0;
    while i < bytes.len()
        invariant
            bytes@ == s.spec_bytes(),
            0 <= i <= bytes@.len(),
            out@ == bytes@.subrange(0, i as int),
        decreases bytes@.len() - i,
    {
        out.push(bytes[i]);
        assert(bytes@.subrange(0, i + 1) =~= bytes@.subrange(0, i as int).push(bytes@[i as int]));
        i = i + 1;
    }
    out.push(0);
    assert(bytes@.subrange(0, bytes@.len() as int) =~= bytes@);
    out
}

/// A vendor OUT request that sends identity string `index` of `len`
/// bytes, its NUL included.
pub fn aoa_send_string_request(index: u16, len: u16) -> (r: UsbDeviceRequest)
    ensures
        r.request_type == 0x40,
        r.request == AOA_SEND_STRING,
        r.value == 0,
        r.index == index,
        r.length == len,
{
    UsbDeviceRequest { request_type: 0x40, request: AOA_SEND_STRING, value: 0, index, length: len }
}

/// A vendor OUT request that asks the phone to start accessory mode.
pub fn aoa_start_request() -> (r: UsbDeviceRequest)
    ensures
        r.request_type == 0x40,
        r.request == AOA_START,
        r.value == 0,
        r.index == 0,
        r.length == 0,
{
    UsbDeviceRequest { request_type: 0x40, request: AOA_START, value: 0, index: 0, length: 0 }
}

/// Device discovery and the accessory handshake's decisions.
pub struct RdfManager;

impl RdfManager {
    /// Whether a device already runs as an accessory.
    pub fn is_accessory(vid: u16, pid: u16) -> (r: bool)
        ensures
            r == (vid == GOOGLE_VID && (pid == ACCESSORY_PID || pid == ACCESSORY_ADB_PID)),
    {
        vid == GOOGLE_VID && (pid == ACCESSORY_PID || pid == ACCESSORY_ADB_PID)
    }

    /// Whether to send the identity strings and the start request, given
    /// the protocol version the phone reported, if it answered.
    pub fn should_request_accessory(version: Option<u16>) -> (r: bool)
        ensures
            r == (version matches Some(v) && v >= 1),
    {
        match version {
            Some(v) => v >= 1,
            None => false,
        }
    }

    /// The address of the first bulk IN endpoint.
    pub fn bulk_in_endpoint(endpoints: &[UsbEndpointDescriptor]) -> (r: Option<u8>)
        ensures
            r == bulk_in_from(endpoints@, 0),
    {
        let mut i: usize = 0;
        while i < endpoints.len()
            invariant
                0 <= i <= endpoints@.len(),
                bulk_in_from(endpoints@, 0) == bulk_in_from(endpoints@, i as int),
            decreases endpoints@.len() - i,
        {
            let ep = endpoints[i];
            if ep.endpoint_address >= 0x80 && ep.attributes % 4 == 2 {
                return Some(ep.endpoint_address);
            }
            i = i + 1;
        }
        None
    }
}

} // verus!
