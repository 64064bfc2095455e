//! Properties that span several operations of the library: what reading
//! gives back of writing, and what the outlet's command handling keeps when
//! bytes arrive in pieces.

use vstd::prelude::*;

use crate::api::{device_dto_of, room_dto_of, with_new_device, with_new_room, DeviceDto, RoomDto};
use crate::devices::device::{device_copy, device_copying, device_eq, device_numeric};
use crate::decimal::{one_decimal_text, tenths};
use crate::devices::{Device, Socket, Thermometer};
use crate::home::room::{device_equality, room_copy, room_copying, room_eq, Room};
use crate::home::smart_home::{home_eq, room_equality, rooms_wf, SmartHome};
use crate::keyed::maps_eq_by;
use crate::outlet::{switched, SmartSocket};
use crate::sim::{
    char_index, config_lines_text, drained, lemma_char_index, lemma_newline_index, newline_index,
    reply_to, switch_after, watts_now_spec, OutletState, ReplyView,
};
use crate::ui::{list_message_text, Listing};
use crate::text::{is_white, trim_end_text, trim_start_text, trim_text};
use crate::wire::{first_index_of, flag_value, le_bytes, le_value, status_line_text, status_split, StatusSplit};

verus! {

/// The on/off field an outlet writes.
pub open spec fn flag_text(is_on: bool) -> Seq<char> {
    if is_on {
        "1"@
    } else {
        "0"@
    }
}

/// A status line that an outlet writes reads back as the same switch and the
/// same watts text, provided that text does not end in white space (the
/// reader trims the line).
pub proof fn law_status_line_round_trip(is_on: bool, watts: Seq<char>)
    requires
        watts.len() == 0 || !is_white(watts.last()),
    ensures
        status_split(status_line_text(is_on, watts)) == StatusSplit::Fields(flag_text(is_on), watts),
        flag_value(flag_text(is_on)) == Some(is_on),
{
    reveal_strlit("STATUS,");
    reveal_strlit("1");
    reveal_strlit("0");
    reveal_strlit(",");
    reveal_strlit("\n");
    reveal_strlit("on");
    reveal_strlit("ON");
    reveal_strlit("true");
    reveal_strlit("TRUE");
    let f = flag_text(is_on);
    let s = status_line_text(is_on, watts);
    let t = "STATUS,"@ + f + ","@ + watts;
    assert(s =~= t.push('\n'));
    assert(s[0] == 'S');
    assert(trim_start_text(s) == s);
    assert(s.drop_last() =~= t);
    assert(is_white(s.last()));
    assert(trim_end_text(s) == trim_end_text(t));
    if watts.len() == 0 {
        assert(t.last() == ',');
    } else {
        assert(t.last() == watts.last());
    }
    assert(trim_end_text(t) == t);
    assert(trim_text(s) == t);
    let p = "STATUS,"@;
    assert(t.take(p.len() as int) =~= p);
    let rest = t.skip(p.len() as int);
    assert(rest =~= f + ","@ + watts);
    assert(rest[1] == ',');
    assert(rest.contains(','));
    let c = choose|c: int| 0 <= c < rest.len() && rest[c] == ',' && forall|j: int| 0 <= j < c ==> rest[j] != ',';
    if c == 0 {
        assert(rest[0] != ',');
    } else if c > 1 {
        assert(rest[1] != ',');
    }
    assert(first_index_of(rest, ',') == Some(1int));
    assert(rest.take(1) =~= f);
    assert(rest.skip(2) =~= watts);
    if !is_on {
        assert("0"@ != "1"@ && "0"@.len() != "on"@.len() && "0"@.len() != "true"@.len());
    }
}

/// The datagram of a reading decodes to the reading's bit pattern.
pub proof fn law_temperature_datagram_round_trip(bits: u32)
    ensures
        le_bytes(bits).len() == 4,
        le_value(le_bytes(bits)) == bits,
{
    let b = le_bytes(bits);
    let b0 = bits % 0x100;
    let b1 = (bits / 0x100) % 0x100;
    let b2 = (bits / 0x1_0000) % 0x100;
    let b3 = bits / 0x100_0000;
    assert(b3 < 0x100);
    assert(b[0] == b0 && b[1] == b1 && b[2] == b2 && b[3] == b3);
    assert(b0 + 0x100 * b1 + 0x1_0000 * b2 + 0x100_0000 * b3 == bits) by (nonlinear_arith)
        requires
            b0 == bits % 0x100,
            b1 == (bits / 0x100) % 0x100,
            b2 == (bits / 0x1_0000) % 0x100,
            b3 == bits / 0x100_0000,
    ;
}

/// A local socket draws its rated power when on and nothing when off.
pub proof fn law_local_socket_power(s: Socket)
    requires
        !s.remote_view(),
    ensures
        s.power_view() == (if s.on_view() {
            s.rated_view()
        } else {
            0u32
        }),
{
}

/// The first newline of `a` is also the first newline of `a + b`.
proof fn lemma_newline_in_prefix(a: Seq<u8>, b: Seq<u8>, i: int)
    requires
        newline_index(a) == Some(i),
    ensures
        newline_index(a + b) == Some(i),
{
    lemma_newline_index(a);
    lemma_newline_index(a + b);
    let ab = a + b;
    assert(ab[i] == a[i]);
    match newline_index(ab) {
        Some(j) => {
            if j < i {
                assert(ab[j] == a[j]);
            } else if j > i {
                assert(ab[i] == 10u8);
            }
        },
        None => {
            assert(ab[i] == 10u8);
        },
    }
}

/// Commands may reach the outlet in any number of pieces: handling the
/// complete lines of `a`, then those of what was left of `a` followed by
/// `b`, switches and answers exactly as handling the lines of `a + b` at
/// once, and leaves the same bytes.
pub proof fn law_drain_in_pieces(on: bool, nominal: u32, a: Seq<u8>, b: Seq<u8>)
    ensures
        drained(on, nominal, a + b) == ({
            let first = drained(on, nominal, a);
            let second = drained(first.0, nominal, first.2 + b);
            (second.0, first.1 + second.1, second.2)
        }),
    decreases a.len(),
{
    lemma_newline_index(a);
    match newline_index(a) {
        None => {
            assert(drained(on, nominal, a) == (on, Seq::<crate::sim::ReplyView>::empty(), a));
            let second = drained(on, nominal, a + b);
            assert(Seq::<crate::sim::ReplyView>::empty() + second.1 =~= second.1);
        },
        Some(i) => {
            lemma_newline_in_prefix(a, b, i);
            let ab = a + b;
            assert(ab.take(i) =~= a.take(i));
            assert(ab.skip(i + 1) =~= a.skip(i + 1) + b);
            let cmd = trim_text(crate::sim::utf8_lossy_text(a.take(i)));
            let on2 = crate::sim::switch_after(on, cmd);
            law_drain_in_pieces(on2, nominal, a.skip(i + 1), b);
            let inner = drained(on2, nominal, a.skip(i + 1));
            let second = drained(inner.0, nominal, inner.2 + b);
            let first: Seq<crate::sim::ReplyView> = match crate::sim::reply_to(
                crate::sim::OutletState { is_on: on, nominal_watts: nominal },
                cmd,
            ) {
                Some(x) => seq![x],
                None => seq![],
            };
            assert(first + (inner.1 + second.1) =~= (first + inner.1) + second.1);
        },
    }
}

/// A room just created reads back as the record its creation answered:
/// same key, same name, no devices.
pub proof fn law_created_room_reads_back(
    before: SmartHome,
    after: SmartHome,
    id: Seq<char>,
    name: Seq<char>,
    created: RoomDto,
    read: RoomDto,
)
    requires
        with_new_room(before, after, id, name),
        created.id@ == id,
        created.name@ == name,
        created.device_count == 0,
        room_dto_of(read, id, after.rooms_view()[id]),
    ensures
        after.rooms_view().contains_key(id),
        read.id@ == created.id@,
        read.name@ == created.name@,
        read.device_count == created.device_count,
{
    assert(after.rooms_view().dom().contains(id));
    assert(after.rooms_view()[id].devices_view().dom() =~= Set::<Seq<char>>::empty());
}

/// Deleting a room that was just created gives back the rooms the home had.
pub proof fn law_delete_undoes_create_room(
    before: SmartHome,
    created: SmartHome,
    deleted: SmartHome,
    id: Seq<char>,
    name: Seq<char>,
)
    requires
        !before.rooms_view().contains_key(id),
        with_new_room(before, created, id, name),
        deleted.rooms_view() == created.rooms_view().remove(id),
    ensures
        deleted.rooms_view() == before.rooms_view(),
{
    assert(deleted.rooms_view().dom() =~= before.rooms_view().dom());
    assert(deleted.rooms_view() =~= before.rooms_view());
}

/// After a room is deleted, it is missing: reading it is refused with 404.
pub proof fn law_deleted_room_is_missing(before: SmartHome, after: SmartHome, id: Seq<char>)
    requires
        after.rooms_view() == before.rooms_view().remove(id),
    ensures
        !after.rooms_view().contains_key(id),
{
}

/// A device just created reads back as the record its creation answered.
pub proof fn law_created_device_reads_back(
    before: SmartHome,
    after: SmartHome,
    room_id: Seq<char>,
    id: Seq<char>,
    device: Device,
    created: DeviceDto,
    read: DeviceDto,
)
    requires
        before.rooms_view().contains_key(room_id),
        with_new_device(before, after, room_id, id, device),
        device_dto_of(created, id, device),
        device_dto_of(read, id, after.rooms_view()[room_id].devices_view()[id]),
    ensures
        after.rooms_view().contains_key(room_id),
        after.rooms_view()[room_id].devices_view().contains_key(id),
        read.id@ == created.id@,
        read.kind == created.kind,
        read.name@ == created.name@,
        read.is_on == created.is_on,
        read.power_watts == created.power_watts,
{
    assert(after.rooms_view().dom().contains(room_id));
}

/// Deleting a device that was just created gives back the devices its room had.
pub proof fn law_delete_undoes_create_device(
    before: SmartHome,
    created: SmartHome,
    deleted: SmartHome,
    room_id: Seq<char>,
    id: Seq<char>,
    device: Device,
)
    requires
        before.rooms_view().contains_key(room_id),
        !before.rooms_view()[room_id].devices_view().contains_key(id),
        with_new_device(before, created, room_id, id, device),
        deleted.rooms_view()[room_id].devices_view() == created.rooms_view()[room_id].devices_view().remove(id),
    ensures
        deleted.rooms_view()[room_id].devices_view() == before.rooms_view()[room_id].devices_view(),
{
    assert(deleted.rooms_view()[room_id].devices_view() =~= before.rooms_view()[room_id].devices_view());
}

/// A copy of a device equals it, unless one of its quantities is NaN
/// (NaN equals nothing, not even itself).
pub proof fn law_device_copy_is_equal(a: Device, b: Device)
    requires
        device_copy(&a, &b),
        device_numeric(&a),
    ensures
        device_eq(&a, &b),
        device_eq(&b, &a),
{
}

/// A copy of a room equals it, unless one of its devices has a NaN quantity.
pub proof fn law_room_copy_is_equal(a: Room, b: Room)
    requires
        a.wf(),
        b.wf(),
        a.name_view() == b.name_view(),
        maps_eq_by(a.devices_view(), b.devices_view(), device_copying()),
        forall|k: Seq<char>| #[trigger] a.devices_view().contains_key(k) ==> device_numeric(&a.devices_view()[k]),
    ensures
        room_eq(&a, &b),
        room_eq(&b, &a),
{
    a.lemma_same_devices(&b);
    b.lemma_same_devices(&a);
    assert forall|k: Seq<char>| #[trigger] a.devices_view().contains_key(k) implies device_equality()(
        a.devices_view()[k],
        b.devices_view()[k],
    ) && device_equality()(b.devices_view()[k], a.devices_view()[k]) by {
        law_device_copy_is_equal(a.devices_view()[k], b.devices_view()[k]);
    }
    assert(maps_eq_by(a.devices_view(), b.devices_view(), device_equality()));
    assert forall|k: Seq<char>| #[trigger] b.devices_view().contains_key(k) implies device_equality()(
        b.devices_view()[k],
        a.devices_view()[k],
    ) by {
        assert(a.devices_view().contains_key(k));
    }
    assert(maps_eq_by(b.devices_view(), a.devices_view(), device_equality()));
}

/// A copy of a home equals it, unless one of its devices has a NaN quantity.
pub proof fn law_home_copy_is_equal(a: SmartHome, b: SmartHome)
    requires
        a.wf(),
        b.wf(),
        a.name_view() == b.name_view(),
        maps_eq_by(a.rooms_view(), b.rooms_view(), room_copying()),
        forall|r: Seq<char>, k: Seq<char>|
            #[trigger] a.rooms_view().contains_key(r) && #[trigger] a.rooms_view()[r].devices_view().contains_key(k)
                ==> device_numeric(&a.rooms_view()[r].devices_view()[k]),
    ensures
        home_eq(&a, &b),
{
    a.lemma_same_rooms(&b);
    a.lemma_rooms_wf();
    b.lemma_rooms_wf();
    assert forall|r: Seq<char>| #[trigger] a.rooms_view().contains_key(r) implies room_equality()(
        a.rooms_view()[r],
        b.rooms_view()[r],
    ) by {
        let x = a.rooms_view()[r];
        let y = b.rooms_view()[r];
        assert(rooms_wf(a.rooms_view()) && rooms_wf(b.rooms_view()));
        assert(b.rooms_view().contains_key(r));
        assert(x.wf() && y.wf());
        assert(room_copy(&x, &y));
        assert forall|k: Seq<char>| #[trigger] x.devices_view().contains_key(k) implies device_numeric(
            &x.devices_view()[k],
        ) by {}
        law_room_copy_is_equal(x, y);
    }
}

/// A device put into a room is found under its key, and every other key
/// keeps its device.
pub proof fn law_room_insert_then_lookup(before: Room, after: Room, key: Seq<char>, device: Device)
    requires
        after.devices_view() == before.devices_view().insert(key, device),
    ensures
        after.devices_view().contains_key(key),
        after.devices_view()[key] == device,
        forall|k: Seq<char>|
            k != key ==> (#[trigger] after.devices_view().contains_key(k) == before.devices_view().contains_key(k)
                && (before.devices_view().contains_key(k) ==> after.devices_view()[k] == before.devices_view()[k])),
{
}

/// A device taken out of a room is no longer found, and every other key
/// keeps its device.
pub proof fn law_room_remove_then_missing(before: Room, after: Room, key: Seq<char>)
    requires
        after.devices_view() == before.devices_view().remove(key),
    ensures
        !after.devices_view().contains_key(key),
        forall|k: Seq<char>|
            k != key ==> (#[trigger] after.devices_view().contains_key(k) == before.devices_view().contains_key(k)
                && (before.devices_view().contains_key(k) ==> after.devices_view()[k] == before.devices_view()[k])),
{
}

/// Switching a C-facing socket never changes its rated power, nor whether
/// its handle is live.
pub proof fn law_switch_keeps_rating(before: Option<SmartSocket>, after: Option<SmartSocket>, on: bool)
    requires
        switched(before, after, on),
    ensures
        match (before, after) {
            (Some(s), Some(t)) => t.rated_view() == s.rated_view() && t.live() == s.live(),
            (None, None) => true,
            _ => false,
        },
{
}

/// A released handle ignores switching: its switch stays where it was.
pub proof fn law_released_socket_is_inert(before: Option<SmartSocket>, after: Option<SmartSocket>, on: bool)
    requires
        before matches Some(s) && !s.live(),
        switched(before, after, on),
    ensures
        after matches Some(t) && !t.live() && t.on_view() == before->0.on_view(),
{
}

/// A UDP thermometer shows exactly the last reading that arrived, whatever
/// its sign or value, and its initial reading only while none has arrived;
/// a local thermometer shows its own reading whatever the feed holds.
pub proof fn law_fed_reading_is_shown(t: Thermometer, bits: u32)
    ensures
        t.udp_view() ==> t.shown_reading(Some(bits)) == bits,
        t.shown_reading(None) == t.base_view(),
        !t.udp_view() ==> t.shown_reading(Some(bits)) == t.base_view(),
        t.udp_view() ==> t.shown_reading(Some(le_value(le_bytes(bits)))) == bits,
{
    law_temperature_datagram_round_trip(bits);
}

/// Zero is written `0.0`.
pub proof fn law_zero_is_written_as_zero()
    ensures
        one_decimal_text(0) == seq!['0', '.', '0'],
{
    vstd::arithmetic::power2::lemma_pow2_pos(149);
    let d = vstd::arithmetic::power2::pow2(149);
    assert(crate::types::exponent_field(0) == 0);
    assert(crate::decimal::scale(0) == 1);
    assert(crate::decimal::significand(0) == 0);
    assert(0nat / d == 0 && 0nat % d == 0) by (nonlinear_arith)
        requires
            d > 0,
    ;
    assert(crate::decimal::rounded_half_even(0, d) == 0);
    assert(tenths(0) == 0);
    reveal_with_fuel(crate::decimal::decimal_text, 1);
}

/// The state line of a local socket writes the power it draws now: its
/// rated power when on, zero (`0.0`) when off.
pub proof fn law_local_socket_state_line(s: Socket)
    requires
        !s.remote_view(),
    ensures
        s.state_text() == "Socket '"@ + s.name_view() + "': "@ + (if s.on_view() {
            "on"@
        } else {
            "off"@
        }) + " (power: "@ + (if s.on_view() {
            one_decimal_text(s.rated_view())
        } else {
            seq!['0', '.', '0']
        }) + " W)"@,
{
    law_zero_is_written_as_zero();
    assert(s.error_view() is None) by {
        crate::devices::socket::lemma_local_has_no_error(s);
    }
}

/// `SET_ON` leaves the outlet on and `SET_OFF` leaves it off, whatever the
/// switch was; every other line leaves the switch alone. Both switching
/// commands are answered `OK`; `GET_STATUS` reports the switch and the power
/// drawn (the nominal power when on, zero when off), without switching.
pub proof fn law_outlet_commands(s: OutletState, cmd: Seq<char>)
    ensures
        switch_after(s.is_on, "SET_ON"@) == true,
        switch_after(s.is_on, "SET_OFF"@) == false,
        cmd != "SET_ON"@ && cmd != "SET_OFF"@ ==> switch_after(s.is_on, cmd) == s.is_on,
        reply_to(s, "SET_ON"@) == Some(ReplyView::Line("OK"@)),
        reply_to(s, "SET_OFF"@) == Some(ReplyView::Line("OK"@)),
        reply_to(s, "GET_STATUS"@) == Some(
            ReplyView::Status(
                s.is_on,
                if s.is_on {
                    s.nominal_watts
                } else {
                    0u32
                },
            ),
        ),
{
    reveal_strlit("GET_STATUS");
    reveal_strlit("SET_ON");
    reveal_strlit("SET_OFF");
    assert("GET_STATUS"@.len() != "SET_ON"@.len());
    assert("GET_STATUS"@.len() != "SET_OFF"@.len());
    assert("SET_ON"@.len() != "SET_OFF"@.len());
}

/// The first newline of `s` is also the first newline of `s` with a
/// newline added at its end; without one, the added newline is the first.
proof fn lemma_char_index_push(s: Seq<char>)
    ensures
        match char_index(s, '\n') {
            Some(i) => char_index(s.push('\n'), '\n') == Some(i),
            None => char_index(s.push('\n'), '\n') == Some(s.len() as int),
        },
{
    let t = s.push('\n');
    lemma_char_index(s, '\n');
    lemma_char_index(t, '\n');
    match char_index(s, '\n') {
        Some(i) => {
            assert(t[i] == s[i]);
            match char_index(t, '\n') {
                Some(j) => {
                    if j < i {
                        assert(t[j] == s[j]);
                    } else if j > i {
                        assert(t[i] == '\n');
                    }
                },
                None => {
                    assert(t[i] == '\n');
                },
            }
        },
        None => {
            assert(t[s.len() as int] == '\n');
            match char_index(t, '\n') {
                Some(j) => {
                    if j < s.len() {
                        assert(t[j] == s[j]);
                    }
                },
                None => {},
            }
        },
    }
}

/// The empty text has no lines.
proof fn lemma_no_lines_in_empty()
    ensures
        config_lines_text(Seq::<char>::empty()) == Seq::<Seq<char>>::empty(),
{
    let e = Seq::<char>::empty();
    assert(char_index(e, '\n') is None);
    assert(crate::text::trim_start_text(e) == e);
    assert(crate::text::trim_end_text(e) == e);
}

/// A configuration's last line is kept whether or not a newline ends it:
/// adding a newline at the end of the text changes none of its lines.
pub proof fn law_last_line_needs_no_newline(s: Seq<char>)
    ensures
        config_lines_text(s.push('\n')) == config_lines_text(s),
    decreases s.len(),
{
    lemma_char_index_push(s);
    lemma_char_index(s, '\n');
    let t = s.push('\n');
    match char_index(s, '\n') {
        Some(i) => {
            assert(t.take(i) =~= s.take(i));
            assert(t.skip(i + 1) =~= s.skip(i + 1).push('\n'));
            law_last_line_needs_no_newline(s.skip(i + 1));
        },
        None => {
            assert(t.take(s.len() as int) =~= s);
            assert(t.skip(s.len() as int + 1) =~= Seq::<char>::empty());
            lemma_no_lines_in_empty();
            let k = if trim_text(s).len() == 0 {
                Seq::<Seq<char>>::empty()
            } else {
                seq![trim_text(s)]
            };
            assert(k + Seq::<Seq<char>>::empty() =~= k);
        },
    }
}

/// A text without a newline is one line: kept, trimmed, unless it is blank.
pub proof fn law_text_without_newline_is_one_line(s: Seq<char>)
    requires
        !s.contains('\n'),
    ensures
        config_lines_text(s) == (if trim_text(s).len() == 0 {
            Seq::<Seq<char>>::empty()
        } else {
            seq![trim_text(s)]
        }),
{
    lemma_char_index(s, '\n');
    if let Some(i) = char_index(s, '\n') {
        assert(s.contains('\n'));
    }
}

/// A list page shows a message in place of its items while loading, on
/// failure, and when the list is empty, and shows none whenever there is at
/// least one item.
pub proof fn law_list_message(listing: Listing, n: usize, e: Seq<char>)
    ensures
        n > 0 ==> list_message_text(listing, Some(Ok(n))) is None,
        list_message_text(listing, Some(Ok(0))) is Some,
        list_message_text(listing, None) is Some,
        list_message_text(listing, Some(Err(e))) == Some("Error: "@ + e),
{
}

} // verus!
