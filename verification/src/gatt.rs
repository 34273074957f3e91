use vstd::prelude::*;

verus! {

/// Daly packs advertise names starting with this prefix; the device chooser
/// is filtered by it.
pub const DEVICE_NAME_PREFIX: &'static str = "DL-";

/// Primary service of the Daly BLE module.
pub const SERVICE_FFF0: &'static str = "0000fff0-0000-1000-8000-00805f9b34fb";

/// Notification characteristic of the Daly BLE module, also requested as a service.
pub const SERVICE_FFF1: &'static str = "0000fff1-0000-1000-8000-00805f9b34fb";

/// Command characteristic of the Daly BLE module, also requested as a service.
pub const SERVICE_FFF2: &'static str = "0000fff2-0000-1000-8000-00805f9b34fb";

/// The characters a command characteristic's UUID starts with, in lower case.
pub open spec fn control_uuid_prefix() -> Seq<char> {
    seq!['0', '0', '0', '0', 'f', 'f', 'f', '2']
}

/// ASCII lower-casing of one character; other characters are kept.
pub open spec fn ascii_lower(c: char) -> char {
    if 'A' <= c <= 'Z' {
        ((c as u32) + 32) as char
    } else {
        c
    }
}

/// Whether a characteristic UUID names the command characteristic (FFF2):
/// its lower-cased form starts with `0000fff2`. Lower-casing the first eight
/// characters in ASCII decides the same as full Unicode lower-casing, since no
/// non-ASCII character lower-cases to a digit or to `f`.
pub open spec fn is_control_uuid(uuid: Seq<char>) -> bool {
    &&& uuid.len() >= 8
    &&& forall|i: int| 0 <= i < 8 ==> ascii_lower(#[trigger] uuid[i]) == control_uuid_prefix()[i]
}

fn ascii_lowercase(c: char) -> (l: char)
    ensures
        l == ascii_lower(c),
{
    if 'A' <= c && c <= 'Z' {
        ((c as u8) + 32) as char
    } else {
        c
    }
}

/// Decides whether a characteristic UUID names the command characteristic,
/// comparing its first eight characters case-insensitively with `0000fff2`.
pub fn is_control_uuid_str(uuid: &str) -> (b: bool)
    ensures
        b == is_control_uuid(uuid@),
{
    let prefix = "0000fff2";
    proof {
        reveal_strlit("0000fff2");
        assert(prefix@ =~= control_uuid_prefix());
    }
    if uuid.unicode_len() < 8 {
        return false;
    }
    let mut i: usize = 0;
    while i < 8
        invariant
            i <= 8,
            uuid@.len() >= 8,
            prefix@ == control_uuid_prefix(),
            forall|j: int| 0 <= j < i ==> ascii_lower(#[trigger] uuid@[j]) == control_uuid_prefix()[j],
        decreases 8 - i,
    {
        if ascii_lowercase(uuid.get_char(i)) != prefix.get_char(i) {
            return false;
        }
        i = i + 1;
    }
    true
}

/// The properties of a GATT characteristic that decide how it is used.
#[derive(Clone, Copy, Debug, PartialEq, Eq)]
pub struct CharacteristicProps {
    pub write: bool,
    pub notify: bool,
    pub read: bool,
}

/// Where the readings of a characteristic come from.
#[derive(Clone, Copy, Debug, PartialEq, Eq)]
pub enum ValueSource {
    /// Start notifications, read the current value once, and listen for changes.
    Notifications,
    /// Read the current value once.
    SingleRead,
    /// Neither notifies nor can be read.
    Unused,
}

/// How the connection routine treats one characteristic.
#[derive(Clone, Copy, Debug, PartialEq, Eq)]
pub struct CharacteristicPlan {
    /// Keep it as the characteristic that commands are written to.
    pub store_as_control: bool,
    pub source: ValueSource,
}

/// The value source a characteristic's properties call for: notifications
/// take precedence over a plain read.
pub open spec fn spec_value_source(props: CharacteristicProps) -> ValueSource {
    if props.notify {
        ValueSource::Notifications
    } else if props.read {
        ValueSource::SingleRead
    } else {
        ValueSource::Unused
    }
}

/// A characteristic that notifies is always subscribed to, whether or not it
/// can also be read; one that only reads is read once; one that does neither
/// gives no values.
pub proof fn lemma_value_source(props: CharacteristicProps)
    ensures
        props.notify ==> spec_value_source(props) == ValueSource::Notifications,
        !props.notify && props.read ==> spec_value_source(props) == ValueSource::SingleRead,
        !props.notify && !props.read ==> spec_value_source(props) == ValueSource::Unused,
{
}

/// The command characteristic is recognised by its UUID's first eight
/// characters: `0000fff2` in lower case is one, any of the three `f`s may be
/// upper case, and a UUID that is shorter than eight characters, or whose
/// first four characters are not `0` or whose eighth is not `2`, is not one.
pub proof fn lemma_control_uuid(uuid: Seq<char>)
    ensures
        uuid.len() >= 8 && uuid[0] == '0' && uuid[1] == '0' && uuid[2] == '0' && uuid[3] == '0'
            && (uuid[4] == 'f' || uuid[4] == 'F') && (uuid[5] == 'f' || uuid[5] == 'F') && (uuid[6]
            == 'f' || uuid[6] == 'F') && uuid[7] == '2' <==> is_control_uuid(uuid),
{
    if is_control_uuid(uuid) {
        assert(ascii_lower(uuid[0]) == '0');
        assert(ascii_lower(uuid[1]) == '0');
        assert(ascii_lower(uuid[2]) == '0');
        assert(ascii_lower(uuid[3]) == '0');
        assert(ascii_lower(uuid[4]) == 'f');
        assert(ascii_lower(uuid[5]) == 'f');
        assert(ascii_lower(uuid[6]) == 'f');
        assert(ascii_lower(uuid[7]) == '2');
    }
}

/// Decides how one discovered characteristic is used: whether it becomes the
/// command characteristic (a writable FFF2) and how its values are collected.
pub fn plan_characteristic(uuid: &str, props: CharacteristicProps) -> (plan: CharacteristicPlan)
    ensures
        plan.store_as_control == (is_control_uuid(uuid@) && props.write),
        plan.source == spec_value_source(props),
        props.notify ==> plan.source == ValueSource::Notifications,
        !props.notify && props.read ==> plan.source == ValueSource::SingleRead,
        !props.notify && !props.read ==> plan.source == ValueSource::Unused,
        !props.write ==> !plan.store_as_control,
{
    let store_as_control = is_control_uuid_str(uuid) && props.write;
    let source = if props.notify {
        ValueSource::Notifications
    } else if props.read {
        ValueSource::SingleRead
    } else {
        ValueSource::Unused
    };
    CharacteristicPlan { store_as_control, source }
}

} // verus!
