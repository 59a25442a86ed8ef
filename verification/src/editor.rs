//! The program editor's fields and the checks on a field edit.
//!
//! Editor fields carry integers: hundredths of a millimetre for the
//! distances, thousandths for the unit controls and millionths for the gain.
//! The three choice fields carry the decimal text of a small index.
use vstd::prelude::*;

verus! {

/// One editor field: its id, label and help text, the settings parameter it
/// edits, the integer scale of its value, the integer range, the decimals
/// shown and the unit.
#[derive(Clone, Copy)]
pub struct EditorField {
    pub id: &'static str,
    pub label: &'static str,
    pub detail: &'static str,
    pub index: u32,
    pub scale: u32,
    pub minimum: i64,
    pub maximum: i64,
    pub decimals: u32,
    pub unit: &'static str,
}

/// Number of editor fields.
pub const FIELD_COUNT: usize = 19;

/// The editor fields, in order.
pub open spec fn field_at(k: int) -> EditorField {
    if k == 0 {
        EditorField { id: "distance", label: "Pickup Distance", detail: "Gap 0.50..3.00 mm; compensated level.", index: 2, scale: 100, minimum: 50, maximum: 300, decimals: 2, unit: "mm" }
    } else if k == 1 {
        EditorField { id: "alignment", label: "Tine Alignment", detail: "Offset -1.00..1.50 mm; centre is hollow.", index: 3, scale: 100, minimum: -100i64, maximum: 150, decimals: 2, unit: "mm" }
    } else if k == 2 {
        EditorField { id: "hardness", label: "Hammer Hardness", detail: "Contact stiffness, 0.500 is the original.", index: 4, scale: 1000, minimum: 0, maximum: 1000, decimals: 3, unit: "" }
    } else if k == 3 {
        EditorField { id: "sustain", label: "Sustain", detail: "Changes tine sustain and tonebar decay together.", index: 5, scale: 1000, minimum: 0, maximum: 1000, decimals: 3, unit: "" }
    } else if k == 4 {
        EditorField { id: "bell", label: "Bell", detail: "Strike excitation of the second bending mode.", index: 6, scale: 1000, minimum: 0, maximum: 1000, decimals: 3, unit: "" }
    } else if k == 5 {
        EditorField { id: "dynamics", label: "Dynamics", detail: "Velocity curve, 0.5 is the original 1.4 power.", index: 7, scale: 1000, minimum: 0, maximum: 1000, decimals: 3, unit: "" }
    } else if k == 6 {
        EditorField { id: "gain", label: "Output Gain", detail: "Start at 0.100x. Watch host meters; no limiter.", index: 0, scale: 1000000, minimum: 0, maximum: 2000000, decimals: 6, unit: "x" }
    } else if k == 7 {
        EditorField { id: "law", label: "Pickup Model", detail: "Original, aperture, or register-shaped aperture.", index: 1, scale: 1, minimum: 0, maximum: 2, decimals: 0, unit: "" }
    } else if k == 8 {
        EditorField { id: "bass", label: "Bass", detail: "Instrument electronics.", index: 8, scale: 1000, minimum: -12000i64, maximum: 12000, decimals: 3, unit: "dB" }
    } else if k == 9 {
        EditorField { id: "treble", label: "Treble", detail: "Instrument electronics.", index: 9, scale: 1000, minimum: -12000i64, maximum: 12000, decimals: 3, unit: "dB" }
    } else if k == 10 {
        EditorField { id: "vibrato", label: "Vibrato", detail: "Instrument electronics.", index: 10, scale: 1, minimum: 0, maximum: 1, decimals: 0, unit: "" }
    } else if k == 11 {
        EditorField { id: "speed", label: "Speed", detail: "Instrument electronics.", index: 11, scale: 1000, minimum: 500, maximum: 12000, decimals: 3, unit: "Hz" }
    } else if k == 12 {
        EditorField { id: "intensity", label: "Intensity", detail: "Instrument electronics.", index: 12, scale: 1000, minimum: 0, maximum: 1000, decimals: 3, unit: "" }
    } else if k == 13 {
        EditorField { id: "preamp", label: "Panel", detail: "Instrument electronics.", index: 13, scale: 1, minimum: 0, maximum: 1, decimals: 0, unit: "" }
    } else if k == 14 {
        EditorField { id: "bass-boost", label: "Bass Boost", detail: "Instrument electronics.", index: 14, scale: 1000, minimum: 0, maximum: 1000, decimals: 3, unit: "" }
    } else if k == 15 {
        EditorField { id: "hammer", label: "Hammer Mass", detail: "Mass of the hammer; 0.500 is the nominal four grams.", index: 15, scale: 1000, minimum: 0, maximum: 1000, decimals: 3, unit: "" }
    } else if k == 16 {
        EditorField { id: "tine", label: "Tine Mass", detail: "Mass the tine presents to the hammer; 0.500 is nominal.", index: 16, scale: 1000, minimum: 0, maximum: 1000, decimals: 3, unit: "" }
    } else if k == 17 {
        EditorField { id: "pole", label: "Pole Radius", detail: "Pickup pole face, 0.50..3.00 mm; 0.600 is the original 2 mm.", index: 17, scale: 1000, minimum: 0, maximum: 1000, decimals: 3, unit: "" }
    } else {
        EditorField { id: "twist", label: "Axis Twist", detail: "Turns the tine's bending axes off the strike; zero keeps it on a line.", index: 18, scale: 1000, minimum: 0, maximum: 1000, decimals: 3, unit: "" }
    }
}

/// The editor field at `position`, in display order.
pub fn editor_field(position: usize) -> (r: Option<EditorField>)
    ensures
        position < FIELD_COUNT ==> r == Some(field_at(position as int)),
        position >= FIELD_COUNT ==> r is None,
{
    if position == 0 {
        Some(EditorField { id: "distance", label: "Pickup Distance", detail: "Gap 0.50..3.00 mm; compensated level.", index: 2, scale: 100, minimum: 50, maximum: 300, decimals: 2, unit: "mm" })
    } else if position == 1 {
        Some(EditorField { id: "alignment", label: "Tine Alignment", detail: "Offset -1.00..1.50 mm; centre is hollow.", index: 3, scale: 100, minimum: -100, maximum: 150, decimals: 2, unit: "mm" })
    } else if position == 2 {
        Some(EditorField { id: "hardness", label: "Hammer Hardness", detail: "Contact stiffness, 0.500 is the original.", index: 4, scale: 1000, minimum: 0, maximum: 1000, decimals: 3, unit: "" })
    } else if position == 3 {
        Some(EditorField { id: "sustain", label: "Sustain", detail: "Changes tine sustain and tonebar decay together.", index: 5, scale: 1000, minimum: 0, maximum: 1000, decimals: 3, unit: "" })
    } else if position == 4 {
        Some(EditorField { id: "bell", label: "Bell", detail: "Strike excitation of the second bending mode.", index: 6, scale: 1000, minimum: 0, maximum: 1000, decimals: 3, unit: "" })
    } else if position == 5 {
        Some(EditorField { id: "dynamics", label: "Dynamics", detail: "Velocity curve, 0.5 is the original 1.4 power.", index: 7, scale: 1000, minimum: 0, maximum: 1000, decimals: 3, unit: "" })
    } else if position == 6 {
        Some(EditorField { id: "gain", label: "Output Gain", detail: "Start at 0.100x. Watch host meters; no limiter.", index: 0, scale: 1000000, minimum: 0, maximum: 2000000, decimals: 6, unit: "x" })
    } else if position == 7 {
        Some(EditorField { id: "law", label: "Pickup Model", detail: "Original, aperture, or register-shaped aperture.", index: 1, scale: 1, minimum: 0, maximum: 2, decimals: 0, unit: "" })
    } else if position == 8 {
        Some(EditorField { id: "bass", label: "Bass", detail: "Instrument electronics.", index: 8, scale: 1000, minimum: -12000, maximum: 12000, decimals: 3, unit: "dB" })
    } else if position == 9 {
        Some(EditorField { id: "treble", label: "Treble", detail: "Instrument electronics.", index: 9, scale: 1000, minimum: -12000, maximum: 12000, decimals: 3, unit: "dB" })
    } else if position == 10 {
        Some(EditorField { id: "vibrato", label: "Vibrato", detail: "Instrument electronics.", index: 10, scale: 1, minimum: 0, maximum: 1, decimals: 0, unit: "" })
    } else if position == 11 {
        Some(EditorField { id: "speed", label: "Speed", detail: "Instrument electronics.", index: 11, scale: 1000, minimum: 500, maximum: 12000, decimals: 3, unit: "Hz" })
    } else if position == 12 {
        Some(EditorField { id: "intensity", label: "Intensity", detail: "Instrument electronics.", index: 12, scale: 1000, minimum: 0, maximum: 1000, decimals: 3, unit: "" })
    } else if position == 13 {
        Some(EditorField { id: "preamp", label: "Panel", detail: "Instrument electronics.", index: 13, scale: 1, minimum: 0, maximum: 1, decimals: 0, unit: "" })
    } else if position == 14 {
        Some(EditorField { id: "bass-boost", label: "Bass Boost", detail: "Instrument electronics.", index: 14, scale: 1000, minimum: 0, maximum: 1000, decimals: 3, unit: "" })
    } else if position == 15 {
        Some(EditorField { id: "hammer", label: "Hammer Mass", detail: "Mass of the hammer; 0.500 is the nominal four grams.", index: 15, scale: 1000, minimum: 0, maximum: 1000, decimals: 3, unit: "" })
    } else if position == 16 {
        Some(EditorField { id: "tine", label: "Tine Mass", detail: "Mass the tine presents to the hammer; 0.500 is nominal.", index: 16, scale: 1000, minimum: 0, maximum: 1000, decimals: 3, unit: "" })
    } else if position == 17 {
        Some(EditorField { id: "pole", label: "Pole Radius", detail: "Pickup pole face, 0.50..3.00 mm; 0.600 is the original 2 mm.", index: 17, scale: 1000, minimum: 0, maximum: 1000, decimals: 3, unit: "" })
    } else if position == 18 {
        Some(EditorField { id: "twist", label: "Axis Twist", detail: "Turns the tine's bending axes off the strike; zero keeps it on a line.", index: 18, scale: 1000, minimum: 0, maximum: 1000, decimals: 3, unit: "" })
    } else {
        None
    }
}

/// The choice fields: law, panel and vibrato.
pub open spec fn is_choice_id(id: Seq<char>) -> bool {
    id == "law"@ || id == "preamp"@ || id == "vibrato"@
}

fn same_text(a: &str, b: &str) -> (r: bool)
    ensures
        r == (a@ == b@),
{
    a.to_owned() == b.to_owned()
}

pub fn is_choice(id: &str) -> (r: bool)
    ensures
        r == is_choice_id(id@),
{
    same_text(id, "law") || same_text(id, "preamp") || same_text(id, "vibrato")
}

/// The position of the first field whose id is `id`.
pub open spec fn field_position(id: Seq<char>, k: int) -> bool {
    &&& 0 <= k < FIELD_COUNT
    &&& field_at(k).id@ == id
    &&& forall|j: int| 0 <= j < k ==> (#[trigger] field_at(j)).id@ != id
}

/// The editor field named `id`.
pub fn find_field(id: &str) -> (r: Option<EditorField>)
    ensures
        r matches Some(f) ==> exists|k: int| field_position(id@, k) && f == field_at(k),
        r is None ==> forall|k: int| 0 <= k < FIELD_COUNT ==> (#[trigger] field_at(k)).id@ != id@,
{
    let mut k: usize = 0;
    while k < FIELD_COUNT
        invariant
            k <= FIELD_COUNT,
            forall|j: int| 0 <= j < k ==> (#[trigger] field_at(j)).id@ != id@,
        decreases FIELD_COUNT - k,
    {
        let f = editor_field(k).unwrap();
        if same_text(f.id, id) {
            assert(field_position(id@, k as int));
            return Some(f);
        }
        k += 1;
    }
    None
}

pub open spec fn is_digit(c: char) -> bool {
    '0' <= c && c <= '9'
}

/// The number a string of decimal digits spells.
pub open spec fn decimal(s: Seq<char>) -> nat
    decreases s.len(),
{
    if s.len() == 0 {
        0
    } else {
        decimal(s.drop_last()) * 10 + ((s.last() as nat) - 48) as nat
    }
}

/// The text after an optional leading `+`.
pub open spec fn unsigned_digits(s: Seq<char>) -> Seq<char> {
    if s.len() > 0 && s[0] == '+' {
        s.drop_first()
    } else {
        s
    }
}

pub open spec fn all_digits(d: Seq<char>) -> bool {
    forall|i: int| 0 <= i < d.len() ==> is_digit(#[trigger] d[i])
}

/// Decimal text of an unsigned number no larger than `limit`: an optional
/// `+`, then at least one digit.
pub open spec fn parse_bounded(s: Seq<char>, limit: nat) -> Option<nat> {
    let d = unsigned_digits(s);
    if d.len() > 0 && all_digits(d) && decimal(d) <= limit {
        Some(decimal(d))
    } else {
        None
    }
}

/// Decimal text of an 8-bit unsigned number: an optional `+`, then at least
/// one digit, worth at most 255.
pub open spec fn parse_u8_spec(s: Seq<char>) -> Option<u8> {
    match parse_bounded(s, 255) {
        Some(v) => Some(v as u8),
        None => None,
    }
}

proof fn lemma_decimal_grows(s: Seq<char>, k: int)
    requires
        0 <= k <= s.len(),
        forall|i: int| 0 <= i < s.len() ==> is_digit(#[trigger] s[i]),
    ensures
        decimal(s.subrange(0, k)) <= decimal(s),
    decreases s.len() - k,
{
    if k < s.len() {
        lemma_decimal_grows(s, k + 1);
        assert(s.subrange(0, k + 1).drop_last() =~= s.subrange(0, k));
    } else {
        assert(s.subrange(0, k) =~= s);
    }
}

/// Parses the decimal text of an unsigned number no larger than `limit`, as
/// the standard library's unsigned integer parsers read it.
pub fn parse_unsigned(text: &str, limit: u64) -> (r: Option<u64>)
    ensures
        match parse_bounded(text@, limit as nat) {
            Some(v) => r == Some(v as u64),
            None => r is None,
        },
{
    let n = text.unicode_len();
    let start: usize = if n > 0 && text.get_char(0) == '+' {
        1
    } else {
        0
    };
    let ghost d = unsigned_digits(text@);
    assert(d =~= text@.subrange(start as int, n as int));
    if start >= n {
        return None;
    }
    let mut acc: u64 = 0;
    let mut k: usize = start;
    while k < n
        invariant
            start <= k <= n,
            n == text@.len(),
            d == text@.subrange(start as int, n as int),
            d == unsigned_digits(text@),
            acc <= limit,
            acc == decimal(d.subrange(0, k - start)),
            forall|i: int| 0 <= i < k - start ==> is_digit(#[trigger] d[i]),
        decreases n - k,
    {
        let c = text.get_char(k);
        if !('0' <= c && c <= '9') {
            assert(d[k - start] == c);
            assert(!is_digit(d[k - start]));
            assert(!all_digits(d));
            return None;
        }
        let ghost prefix = d.subrange(0, k - start + 1);
        assert(prefix.drop_last() =~= d.subrange(0, k - start));
        assert(prefix.last() == c);
        let digit = (c as u32) - 48;
        let next: u128 = acc as u128 * 10 + digit as u128;
        assert(decimal(prefix) == next);
        if next > limit as u128 {
            proof {
                if all_digits(d) {
                    lemma_decimal_grows(d, k - start + 1);
                    assert(decimal(d) > limit);
                }
            }
            return None;
        }
        acc = next as u64;
        k += 1;
    }
    assert(d.subrange(0, n - start) =~= d);
    Some(acc)
}

/// Parses the decimal text of an 8-bit unsigned number.
pub fn parse_u8(text: &str) -> (r: Option<u8>)
    ensures
        r == parse_u8_spec(text@),
{
    match parse_unsigned(text, 255) {
        Some(v) => Some(v as u8),
        None => None,
    }
}

/// An edited field's value as the host sends it.
pub enum EditorValue {
    Choice(String),
    Integer(i64),
}

/// The settings change an edit asks for: a choice index, or an integer count
/// of `1 / scale` steps.
#[derive(Clone, Copy, Debug, PartialEq, Eq)]
pub enum EditTarget {
    Choice { index: u32, choice: u8 },
    Scaled { index: u32, steps: i64, scale: u32 },
}

pub open spec fn edit_target_spec(f: EditorField, value: EditorValue) -> Option<EditTarget> {
    match value {
        EditorValue::Choice(text) => if is_choice_id(f.id@) {
            match parse_u8_spec(text@) {
                Some(v) => Some(EditTarget::Choice { index: f.index, choice: v }),
                None => None,
            }
        } else {
            None
        },
        EditorValue::Integer(v) => if !is_choice_id(f.id@) && f.minimum <= v <= f.maximum {
            Some(EditTarget::Scaled { index: f.index, steps: v, scale: f.scale })
        } else {
            None
        },
    }
}

/// The settings change an edit of the field `field_id` asks for: a choice
/// field takes the decimal text of an index, any other field an integer
/// within its range; anything else, and an unknown field, is refused.
pub fn edit_target(field_id: &str, value: &EditorValue) -> (r: Option<EditTarget>)
    ensures
        (forall|k: int| 0 <= k < FIELD_COUNT ==> (#[trigger] field_at(k)).id@ != field_id@) ==> r is None,
        forall|k: int| field_position(field_id@, k) ==> r == edit_target_spec(field_at(k), *value),
{
    let f = match find_field(field_id) {
        Some(f) => f,
        None => return None,
    };
    proof {
        assert forall|k: int| field_position(field_id@, k) implies f == field_at(k) by {
            let k0 = choose|k0: int| field_position(field_id@, k0) && f == field_at(k0);
            if k0 < k {
                assert(field_at(k0).id@ != field_id@);
            } else if k < k0 {
                assert(field_at(k).id@ != field_id@);
            }
        }
    }
    match value {
        EditorValue::Choice(text) => {
            if !is_choice(f.id) {
                return None;
            }
            match parse_u8(text.as_str()) {
                Some(v) => Some(EditTarget::Choice { index: f.index, choice: v }),
                None => None,
            }
        },
        EditorValue::Integer(v) => {
            if is_choice(f.id) || *v < f.minimum || *v > f.maximum {
                return None;
            }
            Some(EditTarget::Scaled { index: f.index, steps: *v, scale: f.scale })
        },
    }
}


/// A page of the program editor.
#[derive(Clone, Copy)]
pub struct EditorPage {
    pub id: &'static str,
    pub label: &'static str,
    pub detail: &'static str,
}

/// Number of editor pages.
pub const EDITOR_PAGES: usize = 5;

/// The editor pages, in display order.
pub open spec fn page_at(page: int) -> EditorPage {
    if page == 0 {
        EditorPage { id: "instrument", label: "Instrument", detail: "Player controls." }
    } else if page == 1 {
        EditorPage { id: "hammer", label: "Hammer", detail: "Contact and playing response." }
    } else if page == 2 {
        EditorPage { id: "resonator", label: "Tine & Tonebar", detail: "Decay and bending-mode excitation." }
    } else if page == 3 {
        EditorPage { id: "pickup", label: "Pickup", detail: "Magnetic pickup position and response." }
    } else if page == 4 {
        EditorPage { id: "setup", label: "Setup", detail: "Controller response." }
    } else {
        EditorPage { id: "setup", label: "Setup", detail: "Controller response." }
    }
}

/// The ids of the fields a page shows, in order.
pub open spec fn page_fields(page: int) -> Seq<Seq<char>> {
    if page == 0 {
        seq!["gain"@, "preamp"@, "bass-boost"@, "bass"@, "treble"@, "vibrato"@, "speed"@, "intensity"@]
    } else if page == 1 {
        seq!["hardness"@]
    } else if page == 2 {
        seq!["sustain"@, "bell"@]
    } else if page == 3 {
        seq!["distance"@, "alignment"@, "law"@]
    } else {
        seq!["dynamics"@]
    }
}

/// The editor page at `page`, in display order.
pub fn editor_page(page: usize) -> (r: Option<EditorPage>)
    ensures
        page < EDITOR_PAGES ==> r == Some(page_at(page as int)),
        page >= EDITOR_PAGES ==> r is None,
{
    if page == 0 {
        Some(EditorPage { id: "instrument", label: "Instrument", detail: "Player controls." })
    } else if page == 1 {
        Some(EditorPage { id: "hammer", label: "Hammer", detail: "Contact and playing response." })
    } else if page == 2 {
        Some(EditorPage { id: "resonator", label: "Tine & Tonebar", detail: "Decay and bending-mode excitation." })
    } else if page == 3 {
        Some(EditorPage { id: "pickup", label: "Pickup", detail: "Magnetic pickup position and response." })
    } else if page == 4 {
        Some(EditorPage { id: "setup", label: "Setup", detail: "Controller response." })
    } else {
        None
    }
}

/// The id of the field at `position` on page `page`.
pub fn page_field(page: usize, position: usize) -> (r: Option<&'static str>)
    ensures
        page < EDITOR_PAGES && position < page_fields(page as int).len() ==> (r matches Some(id)
            && id@ == page_fields(page as int)[position as int]),
        !(page < EDITOR_PAGES && position < page_fields(page as int).len()) ==> r is None,
{
    if page == 0 {
        if position == 0 {
            Some("gain")
        } else if position == 1 {
            Some("preamp")
        } else if position == 2 {
            Some("bass-boost")
        } else if position == 3 {
            Some("bass")
        } else if position == 4 {
            Some("treble")
        } else if position == 5 {
            Some("vibrato")
        } else if position == 6 {
            Some("speed")
        } else if position == 7 {
            Some("intensity")
        } else {
            None
        }
    } else if page == 1 {
        if position == 0 {
            Some("hardness")
        } else {
            None
        }
    } else if page == 2 {
        if position == 0 {
            Some("sustain")
        } else if position == 1 {
            Some("bell")
        } else {
            None
        }
    } else if page == 3 {
        if position == 0 {
            Some("distance")
        } else if position == 1 {
            Some("alignment")
        } else if position == 2 {
            Some("law")
        } else {
            None
        }
    } else if page == 4 {
        if position == 0 {
            Some("dynamics")
        } else {
            None
        }
    } else {
        None
    }
}

} // verus!
