//! Recognising Kvaser adapters among USB devices, and the label shown for one.
use vstd::prelude::*;
use crate::text::{hex, push_char, push_hex};

verus! {

/// The USB Vendor Id assigned to Kvaser AB.
pub const KVASER_VID: u16 = 0x0bfd;

/// Whether a USB device with this vendor id is a Kvaser device.
pub fn is_kvaser(vendor_id: u16) -> (b: bool)
    ensures
        b == (vendor_id == KVASER_VID),
{
    vendor_id == KVASER_VID
}

/// The label of a device: its product name and a comma, its manufacturer and a space
/// (each only when reported), then its vendor and product ids as four upper-case
/// hexadecimal digits each, in brackets.
pub open spec fn device_label_spec(
    product: Option<Seq<char>>,
    manufacturer: Option<Seq<char>>,
    vendor_id: u16,
    product_id: u16,
) -> Seq<char> {
    (match product {
        Some(p) => p + seq![',', ' '],
        None => Seq::empty(),
    }) + (match manufacturer {
        Some(m) => m + seq![' '],
        None => Seq::empty(),
    }) + seq!['['] + hex(vendor_id as nat, 4, true) + seq![','] + hex(product_id as nat, 4, true) + seq![']']
}

/// The label of a device, such as `Leaf Light v2, Kvaser AB [0BFD,0120]`.
pub fn device_label(product: Option<&str>, manufacturer: Option<&str>, vendor_id: u16, product_id: u16) -> (s: String)
    ensures
        s@ == device_label_spec(
            match product {
                Some(p) => Some(p@),
                None => None,
            },
            match manufacturer {
                Some(m) => Some(m@),
                None => None,
            },
            vendor_id,
            product_id,
        ),
{
    let mut s = String::new();
    if let Some(p) = product {
        s.append(p);
        push_char(&mut s, ',');
        push_char(&mut s, ' ');
    }
    if let Some(m) = manufacturer {
        s.append(m);
        push_char(&mut s, ' ');
    }
    push_char(&mut s, '[');
    push_hex(&mut s, vendor_id as u64, 4, true);
    push_char(&mut s, ',');
    push_hex(&mut s, product_id as u64, 4, true);
    push_char(&mut s, ']');
    proof {
        let product_part = match product {
            Some(p) => p@ + seq![',', ' '],
            None => Seq::<char>::empty(),
        };
        let manufacturer_part = match manufacturer {
            Some(m) => m@ + seq![' '],
            None => Seq::<char>::empty(),
        };
        assert(s@ =~= product_part + manufacturer_part + seq!['['] + hex(vendor_id as nat, 4, true) + seq![',']
            + hex(product_id as nat, 4, true) + seq![']']);
    }
    s
}

/// A device label is built from its parts: a reported product name and a comma and space
/// come first, then a reported manufacturer and a space, then the eleven characters
/// `[VVVV,PPPP]` holding the vendor and product ids in upper-case hexadecimal.
pub proof fn lemma_device_label_parts(
    product: Option<Seq<char>>,
    manufacturer: Option<Seq<char>>,
    vendor_id: u16,
    product_id: u16,
)
    ensures
        product matches Some(p) ==> device_label_spec(product, manufacturer, vendor_id, product_id) == p + seq![
            ',',
            ' ',
        ] + device_label_spec(None, manufacturer, vendor_id, product_id),
        manufacturer matches Some(m) ==> device_label_spec(None, manufacturer, vendor_id, product_id) == m
            + seq![' '] + device_label_spec(None, None, vendor_id, product_id),
        ({
            let ids = device_label_spec(None, None, vendor_id, product_id);
            &&& ids.len() == 11
            &&& ids[0] == '[' && ids[5] == ',' && ids[10] == ']'
            &&& ids.subrange(1, 5) == hex(vendor_id as nat, 4, true)
            &&& ids.subrange(6, 10) == hex(product_id as nat, 4, true)
        }),
{
    crate::text::lemma_hex_digits(vendor_id as nat, 4, true);
    crate::text::lemma_hex_digits(product_id as nat, 4, true);
    let ids = device_label_spec(None, None, vendor_id, product_id);
    assert(ids =~= seq!['['] + hex(vendor_id as nat, 4, true) + seq![','] + hex(product_id as nat, 4, true)
        + seq![']']);
    assert(ids.subrange(1, 5) =~= hex(vendor_id as nat, 4, true));
    assert(ids.subrange(6, 10) =~= hex(product_id as nat, 4, true));
    if let Some(p) = product {
        assert(device_label_spec(product, manufacturer, vendor_id, product_id) =~= p + seq![',', ' ']
            + device_label_spec(None, manufacturer, vendor_id, product_id));
    }
    if let Some(m) = manufacturer {
        assert(device_label_spec(None, manufacturer, vendor_id, product_id) =~= m + seq![' ']
            + device_label_spec(None, None, vendor_id, product_id));
    }
}

} // verus!
