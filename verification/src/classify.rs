//! The fingerprint classifier: decides whether an interface is a supported
//! board and derives its human-readable board label.

use vstd::prelude::*;
use vstd::string::*;
use crate::device::{DeviceV, RawPort, UsbDevice, dviews, rviews, RawPortV, clone_opt_string};
use crate::text::{contains_ci, contains_seq, lower_of};

verus! {

/// The case-insensitive substring that identifies the target device family
/// in product or serial text.
pub open spec fn family_tag() -> Seq<char> {
    "arduino"@
}

/// Whether a piece of descriptor text marks the device family: the text is
/// present and contains the family tag, ignoring ASCII case.
pub open spec fn text_marks_family(o: Option<Seq<char>>) -> bool {
    match o {
        Some(s) => contains_seq(lower_of(s), lower_of(family_tag())),
        None => false,
    }
}

/// The vendor id of the board maker itself.
pub open spec fn maker_vendor(vid: u16) -> bool {
    vid == 0x2341
}

/// Vendor ids of the serial bridge chips commonly found on compatible
/// boards.
pub open spec fn bridge_vendor(vid: u16) -> bool {
    vid == 0x1A86 || vid == 0x10C4 || vid == 0x0403
}

/// A device is supported when its vendor id is the board maker's, or when it
/// carries a known bridge chip and its product or serial text names the
/// family.
pub open spec fn spec_supported(
    vid: u16,
    serial_number: Option<Seq<char>>,
    product: Option<Seq<char>>,
) -> bool {
    ||| maker_vendor(vid)
    ||| (bridge_vendor(vid) && (text_marks_family(product) || text_marks_family(serial_number)))
}

/// [`spec_supported`], read off a device value.
pub open spec fn spec_is_arduino(d: DeviceV) -> bool {
    spec_supported(d.vid, d.serial_number, d.product)
}

/// The canonical board label for a (vendor id, product id) pair; falls back
/// to the raw product text, then to a generic placeholder.
pub open spec fn spec_board_label(vid: u16, pid: u16, product: Option<Seq<char>>) -> Seq<char> {
    if vid == 0x2341 && pid == 0x0043 {
        "Arduino Uno"@
    } else if vid == 0x2341 && pid == 0x0010 {
        "Arduino Mega 2560"@
    } else if vid == 0x2341 && pid == 0x8036 {
        "Arduino Leonardo"@
    } else if vid == 0x2341 && pid == 0x8037 {
        "Arduino Micro"@
    } else {
        match product {
            Some(p) => p,
            None => "Unknown Arduino"@,
        }
    }
}

/// Whether this device's descriptor matches a supported board.
pub fn is_arduino_board(device: &UsbDevice) -> (r: bool)
    ensures
        r == spec_is_arduino(device@),
{
    if device.vid == 0x2341 {
        return true;
    }
    if device.vid == 0x1A86 || device.vid == 0x10C4 || device.vid == 0x0403 {
        let product_hit = match &device.product {
            Some(p) => contains_ci(p.as_str(), "arduino"),
            None => false,
        };
        if product_hit {
            return true;
        }
        let serial_hit = match &device.serial_number {
            Some(s) => contains_ci(s.as_str(), "arduino"),
            None => false,
        };
        return serial_hit;
    }
    false
}

/// The board label for this device.
pub fn get_board_name(device: &UsbDevice) -> (r: String)
    ensures
        r@ == spec_board_label(device@.vid, device@.pid, device@.product),
{
    match (device.vid, device.pid) {
        (0x2341, 0x0043) => "Arduino Uno".to_owned(),
        (0x2341, 0x0010) => "Arduino Mega 2560".to_owned(),
        (0x2341, 0x8036) => "Arduino Leonardo".to_owned(),
        (0x2341, 0x8037) => "Arduino Micro".to_owned(),
        _ => match &device.product {
            Some(p) => p.clone(),
            None => "Unknown Arduino".to_owned(),
        },
    }
}

/// The device value a supported raw port classifies to.
pub open spec fn spec_classified(r: RawPortV) -> DeviceV {
    DeviceV {
        port: r.port_name,
        vid: r.vid,
        pid: r.pid,
        serial_number: r.serial_number,
        product: r.product,
        status: "connected"@,
        board_name: spec_board_label(r.vid, r.pid, r.product),
    }
}

/// The classified device list of a raw scan: USB-backed, supported
/// interfaces, in scan order, with status and board label filled in.
pub open spec fn spec_classify(rs: Seq<RawPortV>) -> Seq<DeviceV>
    decreases rs.len(),
{
    if rs.len() == 0 {
        Seq::empty()
    } else {
        spec_classify(rs.drop_last()) + (if rs.last().usb && spec_supported(
            rs.last().vid,
            rs.last().serial_number,
            rs.last().product,
        ) {
            seq![spec_classified(rs.last())]
        } else {
            Seq::empty()
        })
    }
}

/// Classifies a raw scan: retains only USB-backed, supported interfaces and
/// fills in the board label and status.
pub fn classify_ports(ports: &Vec<RawPort>) -> (devs: Vec<UsbDevice>)
    ensures
        dviews(devs@) == spec_classify(rviews(ports@)),
{
    let mut devs: Vec<UsbDevice> = Vec::new();
    let mut i: usize = 0;
    while i < ports.len()
        invariant
            i <= ports@.len(),
            dviews(devs@) == spec_classify(rviews(ports@).take(i as int)),
        decreases ports@.len() - i,
    {
        let p = &ports[i];
        let mut device = UsbDevice {
            port: p.port_name.clone(),
            vid: p.vid,
            pid: p.pid,
            serial_number: clone_opt_string(&p.serial_number),
            product: clone_opt_string(&p.product),
            status: String::from_str("connected"),
            board_name: String::new(),
        };
        if p.usb && is_arduino_board(&device) {
            device.board_name = get_board_name(&device);
            proof {
                assert(device@ == spec_classified(p@));
            }
            devs.push(device);
        }
        i = i + 1;
        proof {
            let rv = rviews(ports@);
            assert(rv.take(i as int).drop_last() =~= rv.take(i - 1));
            assert(rv.take(i as int).last() == rv[i - 1]);
            assert(dviews(devs@) =~= spec_classify(rv.take(i as int)));
        }
    }
    proof {
        assert(rviews(ports@).take(ports@.len() as int) =~= rviews(ports@));
    }
    devs
}

/// The display string for a device: board label, then the port in
/// parentheses.
pub fn display_string(device: &UsbDevice) -> (r: String)
    ensures
        r@ == device@.board_name + " ("@ + device@.port + ")"@,
{
    let s = device.board_name.clone();
    let s = s.concat(" (");
    let s = s.concat(device.port.as_str());
    let s = s.concat(")");
    s
}

} // verus!
