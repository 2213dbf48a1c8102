//! Finding the receivers among the HID interfaces.

use vstd::prelude::*;

verus! {

/// The USB vendor id of Logitech.
pub const LOGITECH_VID: u16 = 0x046D;

/// The usage page of the HID++ interfaces of a receiver.
pub const HIDPP_USAGE_PAGE: u16 = 0xFF00;

/// The usage of the collection for long reports. Wireless devices answer there,
/// and not on the collection for short reports.
pub const HIDPP_LONG_USAGE: u16 = 0x0002;

/// A HID interface, as the system lists it.
#[derive(Debug)]
pub struct HidInterface {
    pub vendor_id: u16,
    pub product_id: u16,
    pub usage_page: u16,
    pub usage: u16,
    /// The path by which the system opens it.
    pub path: Vec<u8>,
}

/// A receiver, and the path of the interface to talk to it.
#[derive(Debug)]
pub struct ReceiverPath {
    pub pid: u16,
    pub path: Vec<u8>,
}

/// Whether an interface is a HID++ interface of the receiver `pid`.
pub open spec fn belongs_to(interface: HidInterface, pid: u16) -> bool {
    is_hidpp(interface) && interface.product_id == pid
}

/// Whether an interface is a HID++ interface of a Logitech receiver.
pub open spec fn is_hidpp(interface: HidInterface) -> bool {
    interface.vendor_id == LOGITECH_VID && interface.usage_page == HIDPP_USAGE_PAGE
}

/// The position of the interface to use for a receiver: its first one for long
/// reports, or else its last one.
pub open spec fn best_interface(interfaces: Seq<HidInterface>, pid: u16) -> Option<int>
    decreases interfaces.len(),
{
    if interfaces.len() == 0 {
        None
    } else {
        let before = best_interface(interfaces.drop_last(), pid);
        if !belongs_to(interfaces.last(), pid) || (before is Some && interfaces[before->0].usage
            == HIDPP_LONG_USAGE) {
            before
        } else {
            Some(interfaces.len() - 1)
        }
    }
}

/// Whether a receiver is listed, with the interface to use for it.
pub open spec fn is_found(interfaces: Seq<HidInterface>, receiver: ReceiverPath) -> bool {
    match best_interface(interfaces, receiver.pid) {
        Some(i) => receiver.path@ == interfaces[i].path@,
        None => false,
    }
}

/// `found` lists each receiver once, with the interface to use for it.
pub open spec fn is_scan_of(interfaces: Seq<HidInterface>, found: Seq<ReceiverPath>) -> bool {
    &&& forall|i: int| 0 <= i < found.len() ==> is_found(interfaces, #[trigger] found[i])
    &&& forall|i: int, j: int|
        0 <= i < j < found.len() ==> (#[trigger] found[i]).pid != (#[trigger] found[j]).pid
    &&& forall|pid: u16| #[trigger]
        best_interface(interfaces, pid) is Some ==> exists|i: int|
            0 <= i < found.len() && (#[trigger] found[i]).pid == pid
}

/// The interface to use belongs to the receiver. It is one for long reports if
/// there is one, and then the first of them.
pub proof fn best_is_long_if_possible(interfaces: Seq<HidInterface>, pid: u16)
    ensures
        match best_interface(interfaces, pid) {
            Some(i) => {
                &&& 0 <= i < interfaces.len()
                &&& belongs_to(interfaces[i], pid)
                &&& forall|j: int|
                    0 <= j < interfaces.len() && belongs_to(#[trigger] interfaces[j], pid)
                        && interfaces[j].usage == HIDPP_LONG_USAGE ==> interfaces[i].usage
                        == HIDPP_LONG_USAGE && i <= j
            },
            None => forall|j: int|
                0 <= j < interfaces.len() ==> !belongs_to(#[trigger] interfaces[j], pid),
        },
    decreases interfaces.len(),
{
    if interfaces.len() > 0 {
        let before = interfaces.drop_last();
        best_is_long_if_possible(before, pid);
        assert forall|j: int| 0 <= j < before.len() implies before[j] == #[trigger] interfaces[j] by {}
    }
}

/// Looks for the HID++ interfaces of receivers. Any Logitech interface with the
/// HID++ usage page will do, so that no list of receivers is needed. Each
/// receiver is listed once.
pub fn scan_receivers(interfaces: &[HidInterface]) -> (found: Vec<ReceiverPath>)
    ensures
        is_scan_of(interfaces@, found@),
{
    let mut found: Vec<ReceiverPath> = Vec::new();
    let mut usages: Vec<u16> = Vec::new();
    let mut i: usize = 0;
    while i < interfaces.len()
        invariant
            i <= interfaces@.len(),
            usages@.len() == found@.len(),
            is_scan_of(interfaces@.take(i as int), found@),
            forall|k: int|
                0 <= k < found@.len() ==> usages@[k] == interfaces@.take(i as int)[best_interface(
                    interfaces@.take(i as int),
                    (#[trigger] found@[k]).pid,
                )->0].usage,
        decreases interfaces@.len() - i,
    {
        let info = &interfaces[i];
        let ghost head = interfaces@.take(i as int);
        let ghost next = interfaces@.take(i + 1);
        let ghost was = found@;
        proof {
            assert(next.drop_last() == head);
            assert(next.last() == interfaces@[i as int]);
            assert forall|pid: u16| #[trigger] best_interface(head, pid) is Some implies 0
                <= best_interface(head, pid)->0 < head.len() && next[best_interface(head, pid)->0]
                == head[best_interface(head, pid)->0] by {
                best_is_long_if_possible(head, pid);
            }
        }
        if info.vendor_id == LOGITECH_VID && info.usage_page == HIDPP_USAGE_PAGE {
            let pid = info.product_id;
            let mut at: usize = 0;
            while at < found.len() && found[at].pid != pid
                invariant
                    at <= found@.len(),
                    forall|k: int| 0 <= k < at ==> (#[trigger] found@[k]).pid != pid,
                decreases found@.len() - at,
            {
                at = at + 1;
            }
            if at == found.len() {
                assert(best_interface(head, pid) is None);
                let path = info.path.clone();
                assert(path@ == info.path@);
                found.push(ReceiverPath { pid, path });
                usages.push(info.usage);
            } else if usages[at] != HIDPP_LONG_USAGE {
                assert(found@[at as int].pid == pid);
                let path = info.path.clone();
                assert(path@ == info.path@);
                found.set(at, ReceiverPath { pid, path });
                usages.set(at, info.usage);
            } else {
                assert(found@[at as int].pid == pid);
            }
            proof {
                let mine = best_interface(next, pid);
                assert forall|k: int| 0 <= k < found@.len() implies is_found(
                    next,
                    #[trigger] found@[k],
                ) && usages@[k] == next[best_interface(next, found@[k].pid)->0].usage by {
                    if found@[k].pid != pid {
                        assert(found@[k] == was[k]);
                        assert(is_found(head, was[k]));
                    } else if k < was.len() {
                        assert(was[k].pid == pid);
                        assert(is_found(head, was[k]));
                    }
                }
                assert forall|q: u16| #[trigger] best_interface(next, q) is Some implies exists|k: int|
                    0 <= k < found@.len() && (#[trigger] found@[k]).pid == q by {
                    if q == pid {
                        assert(found@[at as int].pid == pid);
                    } else {
                        assert(best_interface(head, q) is Some);
                        let k = choose|k: int| 0 <= k < was.len() && (#[trigger] was[k]).pid == q;
                        assert(found@[k].pid == q);
                    }
                }
            }
        } else {
            proof {
                assert forall|k: int| 0 <= k < found@.len() implies is_found(
                    next,
                    #[trigger] found@[k],
                ) && usages@[k] == next[best_interface(next, found@[k].pid)->0].usage by {
                    assert(is_found(head, was[k]));
                }
                assert forall|q: u16| #[trigger] best_interface(next, q) is Some implies exists|k: int|
                    0 <= k < found@.len() && (#[trigger] found@[k]).pid == q by {
                    assert(best_interface(head, q) is Some);
                }
            }
        }
        i = i + 1;
    }
    assert(interfaces@.take(i as int) == interfaces@);
    found
}

/// Which interface is used for a receiver: the first for long reports of those with
/// its product id, the vendor id of Logitech and the usage page of HID++; if none
/// of those is for long reports, the last of them; and if there are none, nothing.
pub proof fn the_interface_to_use(interfaces: Seq<HidInterface>, pid: u16, i: int)
    requires
        0 <= i < interfaces.len(),
        interfaces[i].vendor_id == 0x046D,
        interfaces[i].usage_page == 0xFF00,
        interfaces[i].product_id == pid,
        interfaces[i].usage == 0x0002 ==> forall|j: int|
            0 <= j < i && (#[trigger] interfaces[j]).vendor_id == 0x046D && interfaces[j].usage_page
                == 0xFF00 && interfaces[j].product_id == pid ==> interfaces[j].usage != 0x0002,
        interfaces[i].usage != 0x0002 ==> forall|j: int|
            0 <= j < interfaces.len() && (#[trigger] interfaces[j]).vendor_id == 0x046D
                && interfaces[j].usage_page == 0xFF00 && interfaces[j].product_id == pid
                ==> interfaces[j].usage != 0x0002 && j <= i,
    ensures
        best_interface(interfaces, pid) == Some(i),
    decreases interfaces.len(),
{
    let before = interfaces.drop_last();
    assert forall|j: int| 0 <= j < before.len() implies before[j] == #[trigger] interfaces[j] by {}
    best_is_long_if_possible(before, pid);
    best_is_long_if_possible(interfaces, pid);
    if i < before.len() {
        the_interface_to_use(before, pid, i);
    } else if before.len() > 0 {
        if let Some(b) = best_interface(before, pid) {
            assert(interfaces[b] == before[b]);
        }
    }
}

/// Interfaces of another vendor, on another usage page or of another product are
/// never used for a receiver.
pub proof fn other_interfaces_are_left_alone(interfaces: Seq<HidInterface>, pid: u16)
    ensures
        best_interface(interfaces, pid) matches Some(i) ==> 0 <= i < interfaces.len()
            && interfaces[i].vendor_id == 0x046D && interfaces[i].usage_page == 0xFF00
            && interfaces[i].product_id == pid,
        best_interface(interfaces, pid) is None ==> forall|j: int|
            0 <= j < interfaces.len() ==> !((#[trigger] interfaces[j]).vendor_id == 0x046D
                && interfaces[j].usage_page == 0xFF00 && interfaces[j].product_id == pid),
{
    best_is_long_if_possible(interfaces, pid);
}

} // verus!
