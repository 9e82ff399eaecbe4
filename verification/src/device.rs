//! Input devices: which devices the daemon grabs, the identity of its virtual
//! output keyboard, and the translation of event batches through the engine.

use crate::keymap::{opt_chars, step, EngineState, KeyEvent, Keymap, KeymapEngine, KEY_A, KEY_Z};
use crate::keymap_laws::drive;
use crate::text::{starts_with, str_eq};
use evdev::{AttributeSetRef, BusType, Device, InputEvent, InputId, KeyCode};
use vstd::prelude::*;

verus! {

/// The name of the daemon's virtual output keyboard. The daemon must never
/// grab this device back (that would be a feedback loop), so callers identify
/// it by this name.
pub const VIRTUAL_KEYBOARD_NAME: &'static str = "mackey virtual keyboard";

/// The space bar.
pub const KEY_SPACE: u16 = 57;

/// The event type of key events (`EV_KEY`).
pub const EV_KEY: u16 = 1;

/// The PS/2 (`i8042`) bus type.
pub const BUS_I8042: u16 = 0x11;

/// `evdev::KeyCode`, a key code, carried opaquely.
#[verifier::external_type_specification]
#[verifier::external_body]
pub struct ExKeyCode(KeyCode);

/// `evdev::AttributeSetRef`, a device's capability bit set; its contents are
/// named by `key_set`.
#[verifier::external_type_specification]
#[verifier::external_body]
#[verifier::reject_recursive_types(T)]
pub struct ExAttributeSetRef<T>(AttributeSetRef<T>);

/// `evdev::InputEvent`, a raw input event; its fields are named by
/// `event_type_of`, `code_of` and `value_of`.
#[verifier::external_type_specification]
#[verifier::external_body]
pub struct ExInputEvent(InputEvent);

/// `evdev::Device`, an opened input device.
#[verifier::external_type_specification]
#[verifier::external_body]
pub struct ExDevice(Device);

/// `evdev::InputId`, a device identity.
#[verifier::external_type_specification]
#[verifier::external_body]
pub struct ExInputId(InputId);

/// The key codes a device's key set holds.
pub uninterp spec fn key_set(keys: &AttributeSetRef<KeyCode>) -> Set<u16>;

/// Whether the set holds `code`.
///
/// Calls `AttributeSetRef::<KeyCode>::contains`, which reads the bit at the
/// key's index; the contract claims it is true exactly for codes in the set.
#[verifier::external_body]
fn has_key(keys: &AttributeSetRef<KeyCode>, code: u16) -> (r: bool)
    ensures
        r == key_set(keys).contains(code),
{
    keys.contains(KeyCode::new(code))
}

/// A key set makes a keyboard worth grabbing: it has the core alphabetic
/// keys plus space, which a real keyboard always has and which mice,
/// consumer-control surfaces, power buttons and the like do not.
pub open spec fn keyboard_keys(keys: Set<u16>) -> bool {
    keys.contains(KEY_A) && keys.contains(KEY_Z) && keys.contains(KEY_SPACE)
}

/// Whether a device's set of supported keys makes it a keyboard worth
/// grabbing.
pub fn is_keyboard(keys: &AttributeSetRef<KeyCode>) -> (r: bool)
    ensures
        r == keyboard_keys(key_set(keys)),
{
    has_key(keys, KEY_A) && has_key(keys, KEY_Z) && has_key(keys, KEY_SPACE)
}

/// A device with this name and these supported keys is to be grabbed: a
/// real keyboard and not the daemon's own output.
pub open spec fn grab_wanted(name: Option<Seq<char>>, keys: Option<Set<u16>>) -> bool {
    name != Some(VIRTUAL_KEYBOARD_NAME@) && match keys {
        Some(k) => keyboard_keys(k),
        None => false,
    }
}

/// Whether a device with this name and these supported keys is to be
/// grabbed.
pub fn should_grab(name: Option<&str>, keys: Option<&AttributeSetRef<KeyCode>>) -> (r: bool)
    ensures
        r == grab_wanted(
            opt_chars(name),
            match keys {
                Some(k) => Some(key_set(k)),
                None => None,
            },
        ),
{
    if let Some(n) = name {
        if str_eq(n, VIRTUAL_KEYBOARD_NAME) {
            return false;
        }
    }
    match keys {
        Some(k) => is_keyboard(k),
        None => false,
    }
}

/// The name a device reports, as `Device::name` reads it.
pub uninterp spec fn device_name(dev: Device) -> Option<Seq<char>>;

/// The keys a device supports, as `Device::supported_keys` reads them.
pub uninterp spec fn device_keys(dev: Device) -> Option<Set<u16>>;

/// Calls `Device::name`, which returns the name read when the device was
/// opened.
#[verifier::external_body]
fn name_of(dev: &Device) -> (r: Option<&str>)
    ensures
        opt_chars(r) == device_name(*dev),
{
    dev.name()
}

/// Calls `Device::supported_keys`, which returns the key set read when the
/// device was opened.
#[verifier::external_body]
fn supported_keys_of(dev: &Device) -> (r: Option<&AttributeSetRef<KeyCode>>)
    ensures
        match r {
            Some(k) => device_keys(*dev) == Some(key_set(k)),
            None => device_keys(*dev) is None,
        },
{
    dev.supported_keys()
}

/// A keyboard we should grab: a real keyboard and not our own output.
pub fn is_grabbable(dev: &Device) -> (r: bool)
    ensures
        r == grab_wanted(device_name(*dev), device_keys(*dev)),
{
    should_grab(name_of(dev), supported_keys_of(dev))
}

/// How many times the daemon tries to open a newly appeared device node.
pub const OPEN_ATTEMPTS: u32 = 10;

/// Milliseconds to wait before each attempt, so udev has time to apply the
/// node's group permissions first.
pub const OPEN_RETRY_DELAY_MS: u64 = 100;

/// Whether a failed open on attempt `attempt` (counted from 0) is tried
/// again: every attempt but the last is.
pub fn retry_open(attempt: u32) -> (r: bool)
    ensures
        r == (attempt + 1 < OPEN_ATTEMPTS),
{
    attempt < OPEN_ATTEMPTS - 1
}

/// Whether a new `/dev/input` entry is an event device node.
pub fn is_event_node(name: &str) -> (r: bool)
    ensures
        r == ("event"@.len() <= name@.len() && name@.take("event"@.len() as int) == "event"@),
{
    starts_with(name, "event")
}

/// The device identity that `InputId::new` builds from a bus type, vendor,
/// product and version.
pub uninterp spec fn input_id_of(bus: u16, vendor: u16, product: u16, version: u16) -> InputId;

/// Calls `InputId::new` with `BusType(bus)`.
#[verifier::external_body]
fn new_input_id(bus: u16, vendor: u16, product: u16, version: u16) -> (r: InputId)
    ensures
        r == input_id_of(bus, vendor, product, version),
{
    InputId::new(BusType(bus), vendor, product, version)
}

/// Identity for the virtual output keyboard. Declared on the PS/2 (`i8042`)
/// bus so libinput tags it as an internal keyboard, which keeps
/// disable-while-typing working while the real keyboard is grabbed.
pub fn virtual_keyboard_id() -> (r: InputId)
    ensures
        r == input_id_of(BUS_I8042, 1, 1, 1),
{
    new_input_id(BUS_I8042, 1, 1, 1)
}

/// The type of an input event, as `InputEvent::event_type` reads it.
pub uninterp spec fn event_type_of(e: InputEvent) -> u16;

/// The code of an input event, as `InputEvent::code` reads it.
pub uninterp spec fn code_of(e: InputEvent) -> u16;

/// The value of an input event, as `InputEvent::value` reads it.
pub uninterp spec fn value_of(e: InputEvent) -> i32;

/// The event that `InputEvent::new` builds from a type, code and value.
pub uninterp spec fn input_event_of(event_type: u16, code: u16, value: i32) -> InputEvent;

/// Calls `InputEvent::event_type` and takes the raw type number.
#[verifier::external_body]
fn event_type(e: &InputEvent) -> (r: u16)
    ensures
        r == event_type_of(*e),
{
    e.event_type().0
}

/// Calls `InputEvent::code`.
#[verifier::external_body]
fn event_code(e: &InputEvent) -> (r: u16)
    ensures
        r == code_of(*e),
{
    e.code()
}

/// Calls `InputEvent::value`.
#[verifier::external_body]
fn event_value(e: &InputEvent) -> (r: i32)
    ensures
        r == value_of(*e),
{
    e.value()
}

/// Calls `InputEvent::new`.
#[verifier::external_body]
fn new_input_event(event_type: u16, code: u16, value: i32) -> (r: InputEvent)
    ensures
        r == input_event_of(event_type, code, value),
{
    InputEvent::new(event_type, code, value)
}

/// A key event as an input event.
pub open spec fn key_input_event(k: KeyEvent) -> InputEvent {
    input_event_of(EV_KEY, k.code, k.value)
}

/// A batch run through the engine from `s`: key events are translated, every
/// other event (SYN, MSC, ...) is passed through unchanged and in place.
pub open spec fn translate_batch(
    s: EngineState,
    table: Seq<(u16, Seq<u16>)>,
    batch: Seq<InputEvent>,
) -> (EngineState, Seq<InputEvent>)
    decreases batch.len(),
{
    if batch.len() == 0 {
        (s, seq![])
    } else {
        let prev = translate_batch(s, table, batch.drop_last());
        let e = batch.last();
        if event_type_of(e) == EV_KEY {
            let next = step(prev.0, code_of(e), value_of(e), table);
            (next.0, prev.1 + next.1.map_values(|k: KeyEvent| key_input_event(k)))
        } else {
            (prev.0, prev.1.push(e))
        }
    }
}

/// Run a batch of input events through the keymap engine, translating EV_KEY
/// events and passing everything else through unchanged.
pub fn translate(engine: &mut KeymapEngine, keymap: &Keymap, batch: &[InputEvent]) -> (r: Vec<
    InputEvent,
>)
    ensures
        (final(engine)@, r@) == translate_batch(old(engine)@, keymap.table(), batch@),
{
    let mut out: Vec<InputEvent> = Vec::new();
    let mut i: usize = 0;
    assert(batch@.take(0) =~= Seq::<InputEvent>::empty());
    while i < batch.len()
        invariant
            i <= batch@.len(),
            (engine@, out@) == translate_batch(old(engine)@, keymap.table(), batch@.take(i as int)),
        decreases batch@.len() - i,
    {
        let e = &batch[i];
        proof {
            assert(batch@.take(i + 1).drop_last() =~= batch@.take(i as int));
            assert(batch@.take(i + 1).last() == *e);
        }
        if event_type(e) == EV_KEY {
            let keys = engine.process(event_code(e), event_value(e), keymap);
            let ghost before = out@;
            let mut k: usize = 0;
            while k < keys.len()
                invariant
                    k <= keys@.len(),
                    out@ == before + keys@.take(k as int).map_values(
                        |k: KeyEvent| key_input_event(k),
                    ),
                decreases keys@.len() - k,
            {
                out.push(new_input_event(EV_KEY, keys[k].code, keys[k].value));
                proof {
                    assert(keys@.take(k + 1).map_values(|k: KeyEvent| key_input_event(k))
                        =~= keys@.take(k as int).map_values(|k: KeyEvent| key_input_event(k)).push(
                        key_input_event(keys@[k as int]),
                    ));
                }
                k = k + 1;
            }
            assert(keys@.take(keys@.len() as int) =~= keys@);
        } else {
            out.push(*e);
        }
        i = i + 1;
    }
    assert(batch@.take(batch@.len() as int) =~= batch@);
    out
}

} // verus!

verus! {

/// A batch without key events is passed through unchanged, and the engine
/// state does not change.
pub proof fn law_non_key_events_pass_through(
    s: EngineState,
    table: Seq<(u16, Seq<u16>)>,
    batch: Seq<InputEvent>,
)
    requires
        forall|i: int| 0 <= i < batch.len() ==> event_type_of(#[trigger] batch[i]) != EV_KEY,
    ensures
        translate_batch(s, table, batch) == (s, batch),
    decreases batch.len(),
{
    if batch.len() > 0 {
        let rest = batch.drop_last();
        assert forall|i: int| 0 <= i < rest.len() implies event_type_of(#[trigger] rest[i])
            != EV_KEY by {
            assert(rest[i] == batch[i]);
        }
        law_non_key_events_pass_through(s, table, rest);
        assert(event_type_of(batch[batch.len() - 1]) != EV_KEY);
        assert(rest.push(batch.last()) =~= batch);
    } else {
        assert(batch =~= seq![]);
    }
}

/// The code and value of each event of a batch.
pub open spec fn key_pairs(batch: Seq<InputEvent>) -> Seq<(u16, i32)> {
    batch.map_values(|e: InputEvent| (code_of(e), value_of(e)))
}

/// A batch of key events is translated exactly as the engine runs over its
/// codes and values, so every law of `drive` holds for batches.
pub proof fn law_key_batch_is_drive(
    s: EngineState,
    table: Seq<(u16, Seq<u16>)>,
    batch: Seq<InputEvent>,
)
    requires
        forall|i: int| 0 <= i < batch.len() ==> event_type_of(#[trigger] batch[i]) == EV_KEY,
    ensures
        translate_batch(s, table, batch) == ({
            let d = drive(s, key_pairs(batch), table);
            (d.0, d.1.map_values(|k: KeyEvent| key_input_event(k)))
        }),
    decreases batch.len(),
{
    if batch.len() > 0 {
        let rest = batch.drop_last();
        assert forall|i: int| 0 <= i < rest.len() implies event_type_of(#[trigger] rest[i])
            == EV_KEY by {
            assert(rest[i] == batch[i]);
        }
        law_key_batch_is_drive(s, table, rest);
        assert(event_type_of(batch[batch.len() - 1]) == EV_KEY);
        assert(key_pairs(batch).drop_last() =~= key_pairs(rest));
        let d0 = drive(s, key_pairs(rest), table);
        let e = batch.last();
        let nx = step(d0.0, code_of(e), value_of(e), table);
        assert((d0.1 + nx.1).map_values(|k: KeyEvent| key_input_event(k)) =~= d0.1.map_values(
            |k: KeyEvent| key_input_event(k),
        ) + nx.1.map_values(|k: KeyEvent| key_input_event(k)));
    } else {
        assert(key_pairs(batch) =~= seq![]);
        assert(Seq::<KeyEvent>::empty().map_values(|k: KeyEvent| key_input_event(k)) =~= seq![]);
    }
}

/// A device counts as a keyboard exactly when it has the A (30), Z (44) and
/// Space (57) keys, whatever else it has: adding keys (media, volume,
/// function keys) never turns a keyboard into a non-keyboard.
pub proof fn law_keyboard_is_a_z_space(keys: Set<u16>, more: Set<u16>)
    ensures
        keyboard_keys(keys) == (keys.contains(30) && keys.contains(44) && keys.contains(57)),
        keyboard_keys(keys) && keys.subset_of(more) ==> keyboard_keys(more),
{
}

} // verus!
