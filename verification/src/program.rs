//! Decisions of the program library: which documents belong to this
//! instrument, the envelope a prepared program travels in, the identity of a
//! new draft, how many programs the library keeps, and the bounded transfer
//! buffer every exchange goes through.
//!
//! The document schema itself, its own validation and its JSON encoding
//! belong to the host's program interface; the functions here take what those
//! report as arguments.
use vstd::prelude::*;
use vstd::string::*;
use crate::state::STATE_VERSION;

verus! {

/// The plugin identity a document must name.
pub const PLUGIN_ID: &'static str = "org.rackforge.rftines";
/// Saved programs the library keeps.
pub const MAX_PROGRAMS: usize = 8;
/// Longest message exchanged with the host.
pub const MAX_TRANSFER: usize = 16384;
/// Longest program id and name, in bytes.
pub const NAME_LIMIT: usize = 64;
/// The older schema whose documents stay loadable.
pub const LEGACY_PROGRAM_STATE_VERSION: u32 = 4;

/// What the checks read of a program document.
pub struct DocumentHeader {
    pub id: String,
    pub name: String,
    pub plugin_id: String,
    pub plugin_state_version: u32,
    pub payload_version: u32,
}

/// The storage envelope of a prepared program, around its document.
pub struct Envelope {
    pub schema_version: u32,
    pub storage_path: String,
    pub preview_sound_id: String,
}

/// Byte length of a string in UTF-8, as the platform's size type.
pub open spec fn byte_len(s: Seq<char>) -> usize {
    vstd::utf8::encode_utf8(s).len() as usize
}

/// A document of this instrument: its plugin id, a state schema it reads,
/// payload schema 1, and an id and name of at most `NAME_LIMIT` bytes.
pub open spec fn header_accepted(h: DocumentHeader) -> bool {
    &&& h.plugin_id@ == PLUGIN_ID@
    &&& (h.plugin_state_version == LEGACY_PROGRAM_STATE_VERSION || h.plugin_state_version
        == STATE_VERSION)
    &&& h.payload_version == 1
    &&& byte_len(h.id@) <= NAME_LIMIT
    &&& byte_len(h.name@) <= NAME_LIMIT
}

pub fn accepts_header(h: &DocumentHeader) -> (r: bool)
    ensures
        r == header_accepted(*h),
{
    let expected = String::from_str(PLUGIN_ID);
    let same = h.plugin_id == expected;
    let id_len = h.id.as_str().len();
    let name_len = h.name.as_str().len();
    same && (h.plugin_state_version == LEGACY_PROGRAM_STATE_VERSION
        || h.plugin_state_version == STATE_VERSION) && h.payload_version == 1
        && id_len <= NAME_LIMIT && name_len <= NAME_LIMIT
}

pub open spec fn storage_path_of(id: Seq<char>) -> Seq<char> {
    "programs/"@ + id + ".rackforge-program.json"@
}

pub open spec fn preview_id_of(id: Seq<char>) -> Seq<char> {
    "custom."@ + id
}

/// The envelope of the program `id`: schema 1, stored under `programs/` and
/// previewed as the sound `custom.<id>`.
pub fn envelope(id: &str) -> (e: Envelope)
    ensures
        e.schema_version == 1,
        e.storage_path@ == storage_path_of(id@),
        e.preview_sound_id@ == preview_id_of(id@),
{
    let mut storage_path = String::from_str("programs/");
    storage_path.append(id);
    storage_path.append(".rackforge-program.json");
    let mut preview_sound_id = String::from_str("custom.");
    preview_sound_id.append(id);
    Envelope { schema_version: 1, storage_path, preview_sound_id }
}

/// Prepares a program for saving. It is enveloped exactly when the host's
/// schema accepts the document, the header is this instrument's, and the
/// payload holds valid settings.
pub fn prepare(header: &DocumentHeader, document_valid: bool, payload_valid: bool) -> (r: Option<Envelope>)
    ensures
        r is Some <==> document_valid && header_accepted(*header) && payload_valid,
        r matches Some(e) ==> e.schema_version == 1 && e.storage_path@ == storage_path_of(header.id@)
            && e.preview_sound_id@ == preview_id_of(header.id@),
{
    if !document_valid || !accepts_header(header) || !payload_valid {
        return None;
    }
    Some(envelope(header.id.as_str()))
}

/// A received envelope is the one this library would give the document `id`.
pub fn envelope_matches(received: &Envelope, id: &str) -> (r: bool)
    ensures
        r == (received.schema_version == 1 && received.storage_path@ == storage_path_of(id@)
            && received.preview_sound_id@ == preview_id_of(id@)),
{
    let expected = envelope(id);
    received.schema_version == 1 && received.storage_path == expected.storage_path
        && received.preview_sound_id == expected.preview_sound_id
}

/// A message fits the transfer buffer.
pub fn within_transfer(len: usize) -> (r: bool)
    ensures
        r == (len <= MAX_TRANSFER),
{
    len <= MAX_TRANSFER
}

/// Copies an encoded message to the front of `destination` and answers its
/// length; refuses, leaving `destination` untouched, a message longer than
/// the transfer buffer or than `destination`.
pub fn write_transfer(bytes: &[u8], destination: &mut [u8]) -> (r: Option<usize>)
    ensures
        r is Some <==> bytes@.len() <= MAX_TRANSFER && bytes@.len() <= old(destination)@.len(),
        r is None ==> final(destination)@ == old(destination)@,
        r matches Some(n) ==> n == bytes@.len() && final(destination)@ == bytes@ + old(
            destination,
        )@.skip(n as int),
{
    let n = bytes.len();
    if n > MAX_TRANSFER || n > destination.len() {
        return None;
    }
    let mut i: usize = 0;
    while i < n
        invariant
            i <= n,
            n == bytes@.len(),
            n <= destination@.len(),
            destination@.len() == old(destination)@.len(),
            forall|k: int| 0 <= k < i ==> #[trigger] destination@[k] == bytes@[k],
            forall|k: int| i <= k < destination@.len() ==> #[trigger] destination@[k] == old(destination)@[k],
        decreases n - i,
    {
        destination[i] = bytes[i];
        i += 1;
    }
    assert(destination@ =~= bytes@ + old(destination)@.skip(n as int));
    Some(n)
}

/// The `i`-th temporary draft identity, `lab-<i>` for `i` in 1..=9.
pub open spec fn draft_name(i: int) -> Seq<char> {
    "lab-"@ + seq![((48 + i) as u8) as char]
}

pub open spec fn ids_of(existing: Seq<String>) -> Seq<Seq<char>> {
    existing.map_values(|s: String| s@)
}

/// The first draft identity no existing program uses.
pub open spec fn first_free_draft(existing: Seq<String>, i: int) -> bool {
    &&& 1 <= i <= MAX_PROGRAMS + 1
    &&& !ids_of(existing).contains(draft_name(i))
    &&& forall|j: int| 1 <= j < i ==> ids_of(existing).contains(#[trigger] draft_name(j))
}

fn draft_name_exec(i: usize) -> (s: String)
    requires
        1 <= i <= 9,
    ensures
        s@ == draft_name(i as int),
{
    let digit: &str = if i == 1 {
        "1"
    } else if i == 2 {
        "2"
    } else if i == 3 {
        "3"
    } else if i == 4 {
        "4"
    } else if i == 5 {
        "5"
    } else if i == 6 {
        "6"
    } else if i == 7 {
        "7"
    } else if i == 8 {
        "8"
    } else {
        "9"
    };
    proof {
        reveal_strlit("1");
        reveal_strlit("2");
        reveal_strlit("3");
        reveal_strlit("4");
        reveal_strlit("5");
        reveal_strlit("6");
        reveal_strlit("7");
        reveal_strlit("8");
        reveal_strlit("9");
        assert(digit@ =~= seq![((48 + i) as u8) as char]);
    }
    let mut s = String::from_str("lab-");
    s.append(digit);
    s
}

/// Whether `id` names one of the existing programs.
pub fn contains_id(existing: &Vec<String>, id: &String) -> (r: bool)
    ensures
        r == ids_of(existing@).contains(id@),
{
    let mut i: usize = 0;
    while i < existing.len()
        invariant
            i <= existing@.len(),
            forall|k: int| 0 <= k < i ==> existing@[k]@ != id@,
        decreases existing.len() - i,
    {
        if existing[i] == *id {
            assert(ids_of(existing@)[i as int] == id@);
            return true;
        }
        i += 1;
    }
    proof {
        if ids_of(existing@).contains(id@) {
            let k = choose|k: int| 0 <= k < ids_of(existing@).len() && ids_of(existing@)[k] == id@;
            assert(existing@[k]@ == id@);
        }
    }
    false
}

/// A fresh identity for a draft: the first of `lab-1` .. `lab-9` that no
/// existing program uses. One more than the library holds is offered, so an
/// export draft opens even when the library is full.
pub fn draft_id(existing: &Vec<String>) -> (r: Option<String>)
    ensures
        r matches Some(id) ==> exists|i: int| first_free_draft(existing@, i) && id@ == draft_name(i),
        r is None ==> forall|i: int| 1 <= i <= MAX_PROGRAMS + 1 ==> ids_of(existing@).contains(
            #[trigger] draft_name(i),
        ),
{
    let mut i: usize = 1;
    while i <= MAX_PROGRAMS + 1
        invariant
            1 <= i <= MAX_PROGRAMS + 2,
            forall|j: int| 1 <= j < i ==> ids_of(existing@).contains(#[trigger] draft_name(j)),
        decreases MAX_PROGRAMS + 2 - i,
    {
        let candidate = draft_name_exec(i);
        if !contains_id(existing, &candidate) {
            assert(first_free_draft(existing@, i as int));
            return Some(candidate);
        }
        i += 1;
    }
    None
}

/// The library accepts a program that replaces one of its own, or a new one
/// while it holds fewer than `MAX_PROGRAMS`.
pub open spec fn install_allowed(existing: Seq<String>, id: Seq<char>) -> bool {
    ids_of(existing).contains(id) || existing.len() < MAX_PROGRAMS
}

pub fn may_install(existing: &Vec<String>, id: &String) -> (r: bool)
    ensures
        r == install_allowed(existing@, id@),
{
    contains_id(existing, id) || existing.len() < MAX_PROGRAMS
}

/// Where a new draft starts from.
pub enum DraftBase {
    /// The settings playing now.
    Current,
    /// A saved program of the library, by its id there.
    Saved(String),
    /// A factory program, by its id.
    Factory(String),
}

pub open spec fn custom_prefix() -> Seq<char> {
    "custom."@
}

/// Where a draft of `program_id` starts: no id means the current settings,
/// `custom.<id>` the saved program `<id>`, any other id a factory program.
pub fn draft_base(program_id: Option<&str>) -> (r: DraftBase)
    ensures
        program_id is None ==> r is Current,
        program_id matches Some(p) ==> {
            if p@.len() >= 7 && p@.subrange(0, 7) == custom_prefix() {
                r matches DraftBase::Saved(id) && id@ == p@.subrange(7, p@.len() as int)
            } else {
                r matches DraftBase::Factory(id) && id@ == p@
            }
        },
{
    match program_id {
        None => DraftBase::Current,
        Some(p) => {
            let n = p.unicode_len();
            let prefix = "custom.";
            proof {
                reveal_strlit("custom.");
            }
            if n >= 7 {
                let mut k: usize = 0;
                let mut same = true;
                while k < 7
                    invariant
                        k <= 7,
                        n == p@.len(),
                        n >= 7,
                        prefix@ == custom_prefix(),
                        prefix@.len() == 7,
                        same == (forall|j: int| 0 <= j < k ==> p@[j] == prefix@[j]),
                    decreases 7 - k,
                {
                    if p.get_char(k) != prefix.get_char(k) {
                        same = false;
                    }
                    k += 1;
                }
                if same {
                    assert(p@.subrange(0, 7) =~= custom_prefix());
                    let rest = p.substring_char(7, n);
                    return DraftBase::Saved(String::from_str(rest));
                } else {
                    proof {
                        if p@.subrange(0, 7) == custom_prefix() {
                            assert forall|j: int| 0 <= j < 7 implies p@[j] == prefix@[j] by {
                                assert(p@.subrange(0, 7)[j] == p@[j]);
                            }
                        }
                    }
                }
            }
            DraftBase::Factory(String::from_str(p))
        },
    }
}


/// Number of factory programs.
pub const FACTORY_PROGRAMS: usize = 18;

/// The ids of the factory programs, in catalog order, retired ones included:
/// a draft can still start from any of them.
pub open spec fn factory_ids() -> Seq<Seq<char>> {
    seq![
        "research-direct"@,
        "close-original"@,
        "close-aperture"@,
        "calibrated"@,
        "calibrated-register"@,
        "stage-early-70s"@,
        "suitcase-mid-70s"@,
        "stage-late-70s"@,
        "suitcase-late-70s"@,
        "stage-80s"@,
        "felt-1966"@,
        "portable-bark-1972"@,
        "console-bark-1973"@,
        "portable-bell-1977"@,
        "console-bell-1978"@,
        "portable-chime-1980"@,
        "wide-dynamics-1984"@,
        "tine-bass-1960"@,
    ]
}

/// The id of the factory program at position `k`.
pub fn factory_program(k: usize) -> (r: Option<&'static str>)
    ensures
        k < FACTORY_PROGRAMS ==> (r matches Some(id) && id@ == factory_ids()[k as int]),
        k >= FACTORY_PROGRAMS ==> r is None,
{
    if k == 0 {
        Some("research-direct")
    } else if k == 1 {
        Some("close-original")
    } else if k == 2 {
        Some("close-aperture")
    } else if k == 3 {
        Some("calibrated")
    } else if k == 4 {
        Some("calibrated-register")
    } else if k == 5 {
        Some("stage-early-70s")
    } else if k == 6 {
        Some("suitcase-mid-70s")
    } else if k == 7 {
        Some("stage-late-70s")
    } else if k == 8 {
        Some("suitcase-late-70s")
    } else if k == 9 {
        Some("stage-80s")
    } else if k == 10 {
        Some("felt-1966")
    } else if k == 11 {
        Some("portable-bark-1972")
    } else if k == 12 {
        Some("console-bark-1973")
    } else if k == 13 {
        Some("portable-bell-1977")
    } else if k == 14 {
        Some("console-bell-1978")
    } else if k == 15 {
        Some("portable-chime-1980")
    } else if k == 16 {
        Some("wide-dynamics-1984")
    } else if k == 17 {
        Some("tine-bass-1960")
    } else {
        None
    }
}

/// Whether `id` names a factory program.
pub fn is_factory(id: &str) -> (r: bool)
    ensures
        r == factory_ids().contains(id@),
{
    let mut k: usize = 0;
    while k < FACTORY_PROGRAMS
        invariant
            k <= FACTORY_PROGRAMS,
            factory_ids().len() == FACTORY_PROGRAMS,
            forall|j: int| 0 <= j < k ==> factory_ids()[j] != id@,
        decreases FACTORY_PROGRAMS - k,
    {
        let candidate = factory_program(k).unwrap();
        if candidate.to_owned() == id.to_owned() {
            return true;
        }
        k += 1;
    }
    proof {
        if factory_ids().contains(id@) {
            let j = choose|j: int| 0 <= j < factory_ids().len() && factory_ids()[j] == id@;
            assert(factory_ids()[j] != id@);
        }
    }
    false
}

/// Where a draft of `program_id` starts, given the ids of the saved programs:
/// no id means the current settings; `custom.<id>` the saved program `<id>`,
/// refused when the library holds no such program; any other id a factory
/// program, refused when there is none of that id.
pub fn draft_source(program_id: Option<&str>, saved: &Vec<String>) -> (r: Option<DraftBase>)
    ensures
        program_id is None ==> r matches Some(DraftBase::Current),
        program_id matches Some(p) ==> {
            if p@.len() >= 7 && p@.subrange(0, 7) == custom_prefix() {
                if ids_of(saved@).contains(p@.subrange(7, p@.len() as int)) {
                    r matches Some(DraftBase::Saved(id)) && id@ == p@.subrange(7, p@.len() as int)
                } else {
                    r is None
                }
            } else {
                if factory_ids().contains(p@) {
                    r matches Some(DraftBase::Factory(id)) && id@ == p@
                } else {
                    r is None
                }
            }
        },
{
    match draft_base(program_id) {
        DraftBase::Current => Some(DraftBase::Current),
        DraftBase::Saved(id) => {
            if contains_id(saved, &id) {
                Some(DraftBase::Saved(id))
            } else {
                None
            }
        },
        DraftBase::Factory(id) => {
            if is_factory(id.as_str()) {
                Some(DraftBase::Factory(id))
            } else {
                None
            }
        },
    }
}

/// While the library holds at most `MAX_PROGRAMS` programs a draft identity is
/// always free, so a draft can be opened even from a full library.
pub proof fn law_draft_identity_is_always_free(existing: Seq<String>)
    requires
        existing.len() <= MAX_PROGRAMS,
    ensures
        exists|i: int| 1 <= i <= MAX_PROGRAMS + 1 && !ids_of(existing).contains(#[trigger] draft_name(i)),
{
    let ids = ids_of(existing);
    let c = Seq::new((MAX_PROGRAMS + 1) as nat, |k: int| draft_name(k + 1));
    if forall|i: int| 1 <= i <= MAX_PROGRAMS + 1 ==> ids.contains(#[trigger] draft_name(i)) {
        reveal_strlit("lab-");
        assert forall|a: int, b: int| 0 <= a < c.len() && 0 <= b < c.len() && a != b implies c[a]
            != c[b] by {
            assert(c[a] == draft_name(a + 1));
            assert(c[b] == draft_name(b + 1));
            assert(c[a][4] == ((48 + a + 1) as u8) as char);
            assert(c[b][4] == ((48 + b + 1) as u8) as char);
        }
        assert(c.no_duplicates());
        c.unique_seq_to_set();
        ids.lemma_cardinality_of_set();
        assert(c.to_set().subset_of(ids.to_set())) by {
            assert forall|x: Seq<char>| c.to_set().contains(x) implies ids.to_set().contains(x) by {
                let k = choose|k: int| 0 <= k < c.len() && c[k] == x;
                assert(ids.contains(draft_name(k + 1)));
            }
        }
        vstd::set_lib::lemma_len_subset(c.to_set(), ids.to_set());
        assert(false);
    }
}

/// Installing never takes the library past `MAX_PROGRAMS`: a replacement
/// keeps its size and a new program is admitted only below the limit.
pub proof fn law_install_keeps_the_library_bounded(existing: Seq<String>, id: String)
    requires
        existing.len() <= MAX_PROGRAMS,
        install_allowed(existing, id@),
    ensures
        (if ids_of(existing).contains(id@) { existing.len() } else { existing.len() + 1 })
            <= MAX_PROGRAMS,
{
}

/// A full library still opens a draft for export, and that draft can never
/// be installed as one more program.
pub proof fn law_full_library_drafts_but_refuses_one_more(existing: Seq<String>)
    requires
        existing.len() == MAX_PROGRAMS,
    ensures
        exists|i: int|
            1 <= i <= MAX_PROGRAMS + 1 && !ids_of(existing).contains(#[trigger] draft_name(i))
                && !install_allowed(existing, draft_name(i)),
{
    law_draft_identity_is_always_free(existing);
    let i = choose|i: int| 1 <= i <= MAX_PROGRAMS + 1 && !ids_of(existing).contains(#[trigger] draft_name(i));
    assert(!install_allowed(existing, draft_name(i)));
}

} // verus!
