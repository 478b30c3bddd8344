//! The device data model: one observed USB-serial interface, and the raw
//! port descriptor the enumerating layer hands in.

use vstd::prelude::*;

verus! {

/// Immutable snapshot of one physical interface at scan time. Identity for
/// diffing purposes is the port identifier alone.
#[derive(Debug, PartialEq, Eq)]
pub struct UsbDevice {
    /// OS-assigned port identifier (e.g. a COM port or a device file path).
    pub port: String,
    /// Vendor id.
    pub vid: u16,
    /// Product id.
    pub pid: u16,
    /// Serial number text, when the interface reports one.
    pub serial_number: Option<String>,
    /// Product text, when the interface reports one.
    pub product: Option<String>,
    /// Connectivity status text.
    pub status: String,
    /// Derived board label.
    pub board_name: String,
}

/// The mathematical value of a [`UsbDevice`]: every text field as a
/// character sequence.
pub struct DeviceV {
    pub port: Seq<char>,
    pub vid: u16,
    pub pid: u16,
    pub serial_number: Option<Seq<char>>,
    pub product: Option<Seq<char>>,
    pub status: Seq<char>,
    pub board_name: Seq<char>,
}

impl View for UsbDevice {
    type V = DeviceV;

    open spec fn view(&self) -> DeviceV {
        DeviceV {
            port: self.port@,
            vid: self.vid,
            pid: self.pid,
            serial_number: self.serial_number.deep_view(),
            product: self.product.deep_view(),
            status: self.status@,
            board_name: self.board_name@,
        }
    }
}

/// The views of a sequence of devices.
pub open spec fn dviews(s: Seq<UsbDevice>) -> Seq<DeviceV> {
    s.map_values(|d: UsbDevice| d@)
}

/// Clones an optional string, yielding an equal value.
pub fn clone_opt_string(o: &Option<String>) -> (r: Option<String>)
    ensures
        r == *o,
{
    match o {
        Some(s) => Some(s.clone()),
        None => None,
    }
}

impl Clone for UsbDevice {
    fn clone(&self) -> (res: Self)
        ensures
            res == *self,
    {
        UsbDevice {
            port: self.port.clone(),
            vid: self.vid,
            pid: self.pid,
            serial_number: clone_opt_string(&self.serial_number),
            product: clone_opt_string(&self.product),
            status: self.status.clone(),
            board_name: self.board_name.clone(),
        }
    }
}

/// One serial interface as the operating system reports it, before
/// classification. The enumerating layer converts each OS entry into this
/// plain form.
#[derive(Debug)]
pub struct RawPort {
    /// OS-assigned port identifier.
    pub port_name: String,
    /// Whether the interface is USB-backed.
    pub usb: bool,
    /// Vendor id (meaningful only when `usb` holds).
    pub vid: u16,
    /// Product id (meaningful only when `usb` holds).
    pub pid: u16,
    /// Serial number text, when reported.
    pub serial_number: Option<String>,
    /// Product text, when reported.
    pub product: Option<String>,
}

/// The mathematical value of a [`RawPort`].
pub struct RawPortV {
    pub port_name: Seq<char>,
    pub usb: bool,
    pub vid: u16,
    pub pid: u16,
    pub serial_number: Option<Seq<char>>,
    pub product: Option<Seq<char>>,
}

impl View for RawPort {
    type V = RawPortV;

    open spec fn view(&self) -> RawPortV {
        RawPortV {
            port_name: self.port_name@,
            usb: self.usb,
            vid: self.vid,
            pid: self.pid,
            serial_number: self.serial_number.deep_view(),
            product: self.product.deep_view(),
        }
    }
}

/// The views of a sequence of raw ports.
pub open spec fn rviews(s: Seq<RawPort>) -> Seq<RawPortV> {
    s.map_values(|p: RawPort| p@)
}

} // verus!
