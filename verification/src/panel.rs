//! The control panel's side of the host protocol.
//!
//! The panel keeps one request in flight. Parameter edits queue per
//! parameter and coalesce; a program selection waits for the write in flight
//! and discards queued edits; replies to anything but the request in flight
//! are ignored; a host-side program change invalidates a parameter reply that
//! was already on its way; a request the host does not answer in time is
//! abandoned and the panel rereads the host's state instead of replaying it.
//!
//! Parameter values are of the caller's numeric type `V`, timestamps of its
//! type `T`. Whether a value lies in a parameter's domain, and whether the
//! request in flight has expired, the caller decides and passes in.
use vstd::prelude::*;
use vstd::string::*;
use crate::editor::{field_at, FIELD_COUNT};

verus! {

/// Parameters the panel mirrors.
pub const PARAMETERS: usize = 19;
/// Sections of the panel, in tab order.
pub const SECTION_COUNT: usize = 5;

/// A sound the host offers.
#[derive(Clone, Debug, PartialEq)]
pub struct Sound {
    pub id: String,
    pub name: String,
    pub detail: String,
}

/// A request to the host.
#[derive(Clone, Copy, Debug, PartialEq)]
pub enum Operation<V> {
    Fetch,
    Write(usize, V),
    Select,
}

/// A request and its identity.
pub struct Request<V> {
    pub id: String,
    pub operation: Operation<V>,
    /// The sound a selection asks for.
    pub sound_id: Option<String>,
}

/// What the panel reads of a host reply: its request id, its `ok` flag, the
/// value a parameter write reports when it lies in that parameter's domain,
/// and the complete snapshot a parameter read reports when it is well formed.
pub struct Reply<V> {
    pub request_id: Option<String>,
    pub ok: Option<bool>,
    pub set_value: Option<V>,
    pub snapshot: Option<Vec<V>>,
}

/// One entry of a host snapshot: its index and value when they parse, and
/// whether the value lies in that index's domain.
#[derive(Clone, Copy)]
pub struct SnapshotEntry<V> {
    pub index: Option<u64>,
    pub value: Option<V>,
    pub valid: bool,
}

/// The request in flight.
pub struct Pending<V, T> {
    pub id: String,
    pub operation: Operation<V>,
    pub sound_id: Option<String>,
    pub sent: T,
}

pub struct Client<V, T> {
    pub sounds: Vec<Sound>,
    pub selected: String,
    pub selection_error: Option<String>,
    pub values: Vec<V>,
    pub loaded: bool,
    pub status: String,
    selection: Option<String>,
    refresh: bool,
    revision: u64,
    pending_revision: u64,
    queued: Vec<Option<V>>,
    pending: Option<Pending<V, T>>,
    serial: u64,
}

/// The panel's abstract state.
pub struct ClientView<V, T> {
    pub sounds: Seq<Seq<char>>,
    pub selected: Seq<char>,
    pub selection_error: Option<Seq<char>>,
    pub values: Seq<V>,
    pub loaded: bool,
    pub status: Seq<char>,
    pub selection: Option<Seq<char>>,
    pub refresh: bool,
    pub revision: u64,
    pub pending_revision: u64,
    pub queued: Seq<Option<V>>,
    /// Id, operation, selected sound and send time of the request in flight.
    pub pending: Option<(Seq<char>, Operation<V>, Option<Seq<char>>, T)>,
    pub serial: u64,
}

pub open spec fn opt_view(s: Option<String>) -> Option<Seq<char>> {
    match s {
        Some(x) => Some(x@),
        None => None,
    }
}

impl<V, T> View for Client<V, T> {
    type V = ClientView<V, T>;

    closed spec fn view(&self) -> ClientView<V, T> {
        ClientView {
            sounds: self.sounds@.map_values(|s: Sound| s.id@),
            selected: self.selected@,
            selection_error: opt_view(self.selection_error),
            values: self.values@,
            loaded: self.loaded,
            status: self.status@,
            selection: opt_view(self.selection),
            refresh: self.refresh,
            revision: self.revision,
            pending_revision: self.pending_revision,
            queued: self.queued@,
            pending: match self.pending {
                Some(p) => Some((p.id@, p.operation, opt_view(p.sound_id), p.sent)),
                None => None,
            },
            serial: self.serial,
        }
    }
}

impl<V, T> Client<V, T> {
    /// The sounds the host offers, as it reported them.
    pub closed spec fn catalog(&self) -> Seq<Sound> {
        self.sounds@
    }
}

pub open spec fn no_queue<V>() -> Seq<Option<V>> {
    Seq::new(PARAMETERS as nat, |i: int| None)
}

pub open spec fn connecting_status() -> Seq<char> {
    "Connecting to RackForge..."@
}

pub open spec fn loading_status() -> Seq<char> {
    "Loading program..."@
}

pub open spec fn timeout_status() -> Seq<char> {
    "Host timed out. Reconnecting..."@
}

pub open spec fn timeout_error() -> Seq<char> {
    "Program selection timed out. Check the active program before retrying."@
}

pub open spec fn selection_failed() -> Seq<char> {
    "Could not load the program. Please try again."@
}

pub open spec fn rejected_status() -> Seq<char> {
    "Host rejected the request. Reconnecting..."@
}

pub open spec fn connected_status() -> Seq<char> {
    "Connected to RackForge"@
}

pub open spec fn invalid_status() -> Seq<char> {
    "Invalid host parameter response. Reconnecting..."@
}

pub open spec fn digit_char(d: nat) -> char {
    ((48 + d) as u8) as char
}

/// The decimal digits of `n`, most significant first.
pub open spec fn decimal_digits(n: nat) -> Seq<char>
    decreases n,
{
    if n < 10 {
        seq![digit_char(n)]
    } else {
        decimal_digits(n / 10) + seq![digit_char(n % 10)]
    }
}

/// The id of the request with serial number `serial`.
pub open spec fn request_id(serial: u64) -> Seq<char> {
    "rf-tines-ui-"@ + decimal_digits(serial as nat)
}

fn digit_text(d: u64) -> (s: &'static str)
    requires
        d < 10,
    ensures
        s@ == seq![digit_char(d as nat)],
{
    proof {
        reveal_strlit("0");
        reveal_strlit("1");
        reveal_strlit("2");
        reveal_strlit("3");
        reveal_strlit("4");
        reveal_strlit("5");
        reveal_strlit("6");
        reveal_strlit("7");
        reveal_strlit("8");
        reveal_strlit("9");
    }
    let s = if d == 0 {
        "0"
    } else if d == 1 {
        "1"
    } else if d == 2 {
        "2"
    } else if d == 3 {
        "3"
    } else if d == 4 {
        "4"
    } else if d == 5 {
        "5"
    } else if d == 6 {
        "6"
    } else if d == 7 {
        "7"
    } else if d == 8 {
        "8"
    } else {
        "9"
    };
    assert(s@ =~= seq![digit_char(d as nat)]);
    s
}

/// Appends the decimal digits of `n`.
fn append_decimal(s: &mut String, n: u64)
    ensures
        final(s)@ == old(s)@ + decimal_digits(n as nat),
    decreases n,
{
    if n < 10 {
        s.append(digit_text(n));
    } else {
        append_decimal(s, n / 10);
        s.append(digit_text(n % 10));
        assert(s@ =~= old(s)@ + decimal_digits(n as nat));
    }
}

fn request_id_exec(serial: u64) -> (s: String)
    ensures
        s@ == request_id(serial),
{
    let mut s = String::from_str("rf-tines-ui-");
    append_decimal(&mut s, serial);
    s
}

fn clone_opt(s: &Option<String>) -> (r: Option<String>)
    ensures
        opt_view(r) == opt_view(*s),
{
    match s {
        Some(x) => Some(x.clone()),
        None => None,
    }
}

fn copy_values<V: Copy>(v: &Vec<V>) -> (r: Vec<V>)
    ensures
        r@ == v@,
{
    let mut r: Vec<V> = Vec::new();
    let mut i: usize = 0;
    while i < v.len()
        invariant
            i <= v@.len(),
            r@ == v@.subrange(0, i as int),
        decreases v.len() - i,
    {
        r.push(v[i]);
        i += 1;
        assert(r@ =~= v@.subrange(0, i as int));
    }
    assert(v@.subrange(0, v@.len() as int) =~= v@);
    r
}

fn empty_queue<V>() -> (q: Vec<Option<V>>)
    ensures
        q@ == no_queue::<V>(),
{
    let mut q: Vec<Option<V>> = Vec::new();
    while q.len() < PARAMETERS
        invariant
            q.len() <= PARAMETERS,
            forall|j: int| 0 <= j < q.len() ==> q@[j] is None,
        decreases PARAMETERS - q.len(),
    {
        q.push(None);
    }
    assert(q@ =~= no_queue::<V>());
    q
}

impl<V, T> ClientView<V, T> {
    pub open spec fn wf(self) -> bool {
        &&& self.values.len() == PARAMETERS
        &&& self.queued.len() == PARAMETERS
        &&& self.pending matches Some(p) ==> (p.1 matches Operation::Write(k, _) ==> k < PARAMETERS)
    }

    /// A selection is waiting or in flight.
    pub open spec fn selecting(self) -> bool {
        self.selection is Some || (self.pending matches Some(p) && p.1 is Select)
    }

    /// The host reports `sounds` and the `selected` sound. A change of the
    /// selected sound drops queued edits and marks the values for rereading.
    pub open spec fn after_context(self, sounds: Seq<Seq<char>>, selected: Seq<char>) -> Self {
        if selected != self.selected {
            ClientView {
                sounds,
                selected,
                revision: vstd::wrapping::u64_specs::wrapping_add(self.revision, 1),
                queued: no_queue(),
                loaded: false,
                refresh: true,
                ..self
            }
        } else {
            ClientView { sounds, ..self }
        }
    }

    /// The player asks for the sound `id`; ignored unless the values are
    /// loaded, no selection is under way, and the host offers that sound.
    pub open spec fn after_select(self, id: Seq<char>) -> Self {
        if !self.loaded || self.selecting() || !self.sounds.contains(id) {
            self
        } else {
            ClientView {
                queued: no_queue(),
                selection: Some(id),
                selection_error: None,
                loaded: false,
                status: loading_status(),
                ..self
            }
        }
    }

    /// The player moves parameter `index`; kept only while loaded, outside a
    /// selection, and for a value in the parameter's domain.
    pub open spec fn after_queue(self, index: usize, value: V, valid: bool) -> Self {
        if self.loaded && !self.selecting() && valid && index < PARAMETERS {
            ClientView { queued: self.queued.update(index as int, Some(value)), ..self }
        } else {
            self
        }
    }

    /// The state after abandoning an expired request.
    pub open spec fn expired(self) -> Self {
        ClientView {
            selection_error: if self.selecting() {
                Some(timeout_error())
            } else {
                self.selection_error
            },
            pending: None,
            selection: None,
            refresh: true,
            queued: no_queue(),
            loaded: false,
            status: timeout_status(),
            ..self
        }
    }

    /// The first queued parameter, if any.
    pub open spec fn first_queued(self, k: int) -> bool {
        &&& 0 <= k < PARAMETERS
        &&& self.queued[k] is Some
        &&& forall|j: int| 0 <= j < k ==> self.queued[j] is None
    }

    pub open spec fn nothing_queued(self) -> bool {
        forall|j: int| 0 <= j < PARAMETERS ==> self.queued[j] is None
    }

    /// The request sent after `self` when nothing is in flight: a waiting
    /// selection, then a pending reread, then the first queued write, then a
    /// poll.
    pub open spec fn next_request(self, poll: bool) -> Option<Operation<V>> {
        if self.selection is Some {
            Some(Operation::Select)
        } else if self.refresh {
            Some(Operation::Fetch)
        } else if exists|k: int| self.first_queued(k) {
            let k = choose|k: int| self.first_queued(k);
            Some(Operation::Write(k as usize, self.queued[k]->0))
        } else if poll {
            Some(Operation::Fetch)
        } else {
            None
        }
    }

    /// The state after sending `op` at `now`.
    pub open spec fn sent(self, op: Operation<V>, now: T) -> Self {
        let serial = vstd::wrapping::u64_specs::wrapping_add(self.serial, 1);
        let base = match op {
            Operation::Select => ClientView { selection: None, loaded: false, ..self },
            Operation::Fetch => if self.refresh {
                ClientView { refresh: false, ..self }
            } else {
                self
            },
            Operation::Write(k, _) => ClientView {
                queued: self.queued.update(k as int, None),
                ..self
            },
        };
        ClientView {
            serial,
            pending_revision: self.revision,
            pending: Some((request_id(serial), op, if op is Select { self.selection } else { None }, now)),
            ..base
        }
    }

    /// The state after a reply to the request in flight, whose operation was `op`.
    pub open spec fn answered(self, op: Operation<V>, ok: Option<bool>, set_value: Option<V>, snapshot: Option<Seq<V>>) -> Self {
        let base = ClientView { pending: None, ..self };
        if op is Select {
            ClientView {
                selection_error: if ok != Some(true) {
                    Some(selection_failed())
                } else {
                    self.selection_error
                },
                loaded: false,
                refresh: true,
                ..base
            }
        } else if self.pending_revision != self.revision {
            ClientView { refresh: true, ..base }
        } else if ok != Some(true) {
            ClientView { queued: no_queue(), loaded: false, status: rejected_status(), ..base }
        } else {
            let updated: Option<Seq<V>> = match op {
                Operation::Write(k, _) => match set_value {
                    Some(v) => Some(self.values.update(k as int, v)),
                    None => None,
                },
                _ => match snapshot {
                    Some(v) => if v.len() == PARAMETERS {
                        Some(v)
                    } else {
                        None
                    },
                    None => None,
                },
            };
            match updated {
                Some(values) => ClientView {
                    values,
                    loaded: true,
                    status: connected_status(),
                    ..base
                },
                None => ClientView {
                    loaded: false,
                    queued: no_queue(),
                    status: invalid_status(),
                    ..base
                },
            }
        }
    }

    /// What the panel shows for parameter `index`: a queued edit, else the
    /// write in flight for it, else the host's value.
    pub open spec fn shown(self, index: int) -> V {
        if self.queued[index] is Some {
            self.queued[index]->0
        } else {
            match self.pending {
                Some(p) => match p.1 {
                    Operation::Write(k, v) => if k == index {
                        v
                    } else {
                        self.values[index]
                    },
                    _ => self.values[index],
                },
                None => self.values[index],
            }
        }
    }
}

impl<V: Copy, T: Copy> Client<V, T> {
    /// A panel that has not heard from the host, showing `defaults`.
    pub fn new(defaults: Vec<V>) -> (c: Self)
        requires
            defaults@.len() == PARAMETERS,
        ensures
            c@.wf(),
            c@.sounds.len() == 0,
            c.catalog().len() == 0,
            c@.selected.len() == 0,
            c@.selection_error is None,
            c@.values == defaults@,
            !c@.loaded,
            c@.status == connecting_status(),
            c@.selection is None,
            !c@.refresh,
            c@.revision == 0,
            c@.pending_revision == 0,
            c@.queued == no_queue::<V>(),
            c@.pending is None,
            c@.serial == 0,
    {
        let c = Client {
            sounds: Vec::new(),
            selected: String::new(),
            selection_error: None,
            values: defaults,
            loaded: false,
            status: String::from_str("Connecting to RackForge..."),
            selection: None,
            refresh: false,
            revision: 0,
            pending_revision: 0,
            queued: empty_queue(),
            pending: None,
            serial: 0,
        };
        assert(c@.sounds =~= Seq::<Seq<char>>::empty());
        c
    }

    /// Whether a selection is waiting or in flight.
    pub fn selecting(&self) -> (r: bool)
        ensures
            r == self@.selecting(),
    {
        self.selection.is_some() || match &self.pending {
            Some(p) => match p.operation {
                Operation::Select => true,
                _ => false,
            },
            None => false,
        }
    }

    /// The host's sounds and selected sound.
    pub fn context(&mut self, sounds: Vec<Sound>, selected: &str)
        requires
            old(self)@.wf(),
        ensures
            final(self)@.wf(),
            final(self)@ == old(self)@.after_context(sounds@.map_values(|s: Sound| s.id@), selected@),
            final(self).catalog() == sounds@,
    {
        self.sounds = sounds;
        let sel = String::from_str(selected);
        if sel != self.selected {
            self.selected = sel;
            self.revision = self.revision.wrapping_add(1);
            self.queued = empty_queue();
            self.loaded = false;
            self.refresh = true;
        }
    }

    fn offers(&self, id: &String) -> (r: bool)
        ensures
            r == self@.sounds.contains(id@),
    {
        let mut i: usize = 0;
        while i < self.sounds.len()
            invariant
                i <= self.sounds@.len(),
                forall|k: int| 0 <= k < i ==> self.sounds@[k].id@ != id@,
            decreases self.sounds.len() - i,
        {
            if self.sounds[i].id == *id {
                assert(self@.sounds[i as int] == id@);
                return true;
            }
            i += 1;
        }
        proof {
            if self@.sounds.contains(id@) {
                let k = choose|k: int| 0 <= k < self@.sounds.len() && self@.sounds[k] == id@;
                assert(self.sounds@[k].id@ == id@);
            }
        }
        false
    }

    /// The player asks for the sound `id`.
    pub fn select(&mut self, id: &str)
        requires
            old(self)@.wf(),
        ensures
            final(self)@.wf(),
            final(self)@ == old(self)@.after_select(id@),
            final(self).catalog() == old(self).catalog(),
    {
        let wanted = String::from_str(id);
        if !self.loaded || self.selecting() || !self.offers(&wanted) {
            return;
        }
        self.queued = empty_queue();
        self.selection = Some(wanted);
        self.selection_error = None;
        self.loaded = false;
        self.status = String::from_str("Loading program...");
    }

    /// The player moves parameter `index` to `value`; `valid` says whether the
    /// value lies in that parameter's domain.
    pub fn queue(&mut self, index: usize, value: V, valid: bool)
        requires
            old(self)@.wf(),
        ensures
            final(self)@.wf(),
            final(self)@ == old(self)@.after_queue(index, value, valid),
            final(self).catalog() == old(self).catalog(),
    {
        if self.loaded && !self.selecting() && valid && index < PARAMETERS {
            self.queued.set(index, Some(value));
        }
    }

    /// When the request in flight was sent.
    pub fn pending_sent(&self) -> (r: Option<T>)
        ensures
            match self@.pending {
                Some(p) => r == Some(p.3),
                None => r is None,
            },
    {
        match &self.pending {
            Some(p) => Some(p.sent),
            None => None,
        }
    }

    /// The parameter a write in flight targets.
    pub fn pending_write(&self) -> (r: Option<usize>)
        ensures
            match self@.pending {
                Some(p) => match p.1 {
                    Operation::Write(k, _) => r == Some(k),
                    _ => r is None,
                },
                None => r is None,
            },
    {
        match &self.pending {
            Some(p) => match p.operation {
                Operation::Write(k, _) => Some(k),
                _ => None,
            },
            None => None,
        }
    }

    fn first_queued_index(&self) -> (r: Option<usize>)
        requires
            self@.wf(),
        ensures
            match r {
                Some(k) => self@.first_queued(k as int),
                None => self@.nothing_queued(),
            },
    {
        let mut k: usize = 0;
        while k < PARAMETERS
            invariant
                self@.wf(),
                k <= PARAMETERS,
                forall|j: int| 0 <= j < k ==> self@.queued[j] is None,
            decreases PARAMETERS - k,
        {
            if self.queued[k].is_some() {
                return Some(k);
            }
            k += 1;
        }
        None
    }

    /// The next request to send at `now`, if any. `expired` says whether the
    /// request in flight, if there is one, has waited too long; an expired
    /// request is abandoned and the host's state reread.
    pub fn next(&mut self, now: T, expired: bool, poll: bool) -> (r: Option<Request<V>>)
        requires
            old(self)@.wf(),
        ensures
            final(self)@.wf(),
            final(self).catalog() == old(self).catalog(),
            ({
                let s = if old(self)@.pending is Some && expired {
                    old(self)@.expired()
                } else {
                    old(self)@
                };
                if s.pending is Some {
                    r is None && final(self)@ == s
                } else {
                    match s.next_request(poll) {
                        None => r is None && final(self)@ == s,
                        Some(op) => r matches Some(req) && req.operation == op && req.id@
                            == request_id(vstd::wrapping::u64_specs::wrapping_add(s.serial, 1)) && opt_view(req.sound_id) == (
                        if op is Select {
                            s.selection
                        } else {
                            None
                        }) && final(self)@ == s.sent(op, now),
                    }
                }
            }),
    {
        if self.pending.is_some() && expired {
            if self.selecting() {
                self.selection_error = Some(
                    String::from_str(
                        "Program selection timed out. Check the active program before retrying.",
                    ),
                );
            }
            self.pending = None;
            self.selection = None;
            self.refresh = true;
            self.queued = empty_queue();
            self.loaded = false;
            self.status = String::from_str("Host timed out. Reconnecting...");
        }
        if self.pending.is_some() {
            return None;
        }
        let ghost s = self@;
        let (operation, sound_id) = if self.selection.is_some() {
            let id = self.selection.take();
            self.loaded = false;
            (Operation::Select, id)
        } else if self.refresh {
            self.refresh = false;
            (Operation::Fetch, None)
        } else {
            match self.first_queued_index() {
                Some(k) => {
                    let v = self.queued[k].unwrap();
                    self.queued.set(k, None);
                    proof {
                        assert(exists|j: int| s.first_queued(j));
                        let c = choose|j: int| s.first_queued(j);
                        if c < k {
                            assert(s.queued[c] is None);
                        } else if k < c {
                            assert(s.queued[k as int] is None);
                        }
                    }
                    (Operation::Write(k, v), None)
                },
                None => {
                    if poll {
                        (Operation::Fetch, None)
                    } else {
                        return None;
                    }
                },
            }
        };
        self.serial = self.serial.wrapping_add(1);
        let id = request_id_exec(self.serial);
        self.pending_revision = self.revision;
        self.pending = Some(
            Pending { id: id.clone(), operation, sound_id: clone_opt(&sound_id), sent: now },
        );
        Some(Request { id, operation, sound_id })
    }

    /// A host reply. Anything but a reply to the request in flight is ignored.
    pub fn response(&mut self, reply: &Reply<V>)
        requires
            old(self)@.wf(),
        ensures
            final(self)@.wf(),
            final(self).catalog() == old(self).catalog(),
            match old(self)@.pending {
                None => final(self)@ == old(self)@,
                Some(p) => if opt_view(reply.request_id) != Some(p.0) {
                    final(self)@ == old(self)@
                } else {
                    final(self)@ == old(self)@.answered(
                        p.1,
                        reply.ok,
                        reply.set_value,
                        match reply.snapshot {
                            Some(v) => Some(v@),
                            None => None,
                        },
                    )
                },
            },
    {
        let matches = match (&self.pending, &reply.request_id) {
            (Some(p), Some(id)) => p.id == *id,
            _ => false,
        };
        if !matches {
            return;
        }
        let operation = match &self.pending {
            Some(p) => p.operation,
            None => {
                return;
            },
        };
        self.pending = None;
        let accepted = match reply.ok {
            Some(b) => b,
            None => false,
        };
        if let Operation::Select = operation {
            if !accepted {
                self.selection_error = Some(
                    String::from_str("Could not load the program. Please try again."),
                );
            }
            self.loaded = false;
            self.refresh = true;
            return;
        }
        if self.pending_revision != self.revision {
            self.refresh = true;
            return;
        }
        if !accepted {
            self.queued = empty_queue();
            self.loaded = false;
            self.status = String::from_str("Host rejected the request. Reconnecting...");
            return;
        }
        let updated: Option<Vec<V>> = match operation {
            Operation::Write(k, _) => match reply.set_value {
                Some(v) => {
                    let mut values = copy_values(&self.values);
                    values.set(k, v);
                    Some(values)
                },
                None => None,
            },
            _ => match &reply.snapshot {
                Some(v) => if v.len() == PARAMETERS {
                    Some(copy_values(v))
                } else {
                    None
                },
                None => None,
            },
        };
        match updated {
            Some(values) => {
                self.values = values;
                self.loaded = true;
                self.status = String::from_str("Connected to RackForge");
            },
            None => {
                self.loaded = false;
                self.queued = empty_queue();
                self.status = String::from_str(
                    "Invalid host parameter response. Reconnecting...",
                );
            },
        }
    }

    /// What the panel shows for parameter `index`.
    pub fn display(&self, index: usize) -> (v: V)
        requires
            self@.wf(),
            index < PARAMETERS,
        ensures
            v == self@.shown(index as int),
    {
        match self.queued[index] {
            Some(v) => v,
            None => {
                match &self.pending {
                    Some(p) => match p.operation {
                        Operation::Write(k, v) => if k == index {
                            return v;
                        },
                        _ => {},
                    },
                    None => {},
                }
                self.values[index]
            },
        }
    }
}


/// What a complete snapshot read so far holds, per parameter; `None` once it
/// is known to be malformed. Entries for indices past the last parameter are
/// skipped; an entry without an index, with an index past the platform's
/// size type, or without a value, with a value outside its
/// parameter's domain, or repeating a parameter, spoils the snapshot.
pub open spec fn scan<V>(entries: Seq<SnapshotEntry<V>>) -> Option<Seq<Option<V>>>
    decreases entries.len(),
{
    if entries.len() == 0 {
        Some(no_queue())
    } else {
        let e = entries.last();
        match scan(entries.drop_last()) {
            None => None,
            Some(acc) => match e.index {
                None => None,
                Some(i) => if i > usize::MAX {
                    None
                } else if i >= PARAMETERS {
                    Some(acc)
                } else {
                    match e.value {
                        None => None,
                        Some(v) => if !e.valid || acc[i as int] is Some {
                            None
                        } else {
                            Some(acc.update(i as int, Some(v)))
                        },
                    }
                },
            },
        }
    }
}

/// The values of a snapshot that names every parameter exactly once.
pub open spec fn snapshot_spec<V>(entries: Option<Seq<SnapshotEntry<V>>>) -> Option<Seq<V>> {
    match entries {
        None => None,
        Some(es) => match scan(es) {
            None => None,
            Some(acc) => if forall|i: int| 0 <= i < PARAMETERS ==> (#[trigger] acc[i]) is Some {
                Some(Seq::new(PARAMETERS as nat, |i: int| acc[i]->0))
            } else {
                None
            },
        },
    }
}

proof fn lemma_scan_len<V>(entries: Seq<SnapshotEntry<V>>)
    ensures
        scan(entries) matches Some(acc) ==> acc.len() == PARAMETERS,
    decreases entries.len(),
{
    if entries.len() > 0 {
        lemma_scan_len(entries.drop_last());
    }
}

/// The parameter values of a host snapshot, when it is complete and well formed.
pub fn snapshot<V: Copy>(es: &Vec<SnapshotEntry<V>>) -> (r: Option<Vec<V>>)
    ensures
        r matches Some(v) ==> snapshot_spec(Some(es@)) == Some(v@),
        r is None ==> snapshot_spec(Some(es@)) is None,
{
    let mut acc: Vec<Option<V>> = empty_queue();
    let mut i: usize = 0;
    assert(es@.subrange(0, 0) =~= Seq::<SnapshotEntry<V>>::empty());
    while i < es.len()
        invariant
            i <= es@.len(),
            acc@.len() == PARAMETERS,
            scan(es@.subrange(0, i as int)) == Some(acc@),
        decreases es.len() - i,
    {
        let e = es[i];
        let ghost prefix = es@.subrange(0, i + 1);
        assert(prefix.drop_last() =~= es@.subrange(0, i as int));
        assert(prefix.last() == e);
        match e.index {
            None => {
                proof {
                    assert(scan(prefix) is None);
                    lemma_scan_none_stays(es@, i as int + 1);
                    assert(snapshot_spec(Some(es@)) is None);
                }
                return None;
            },
            Some(index) => {
                if index > usize::MAX as u64 {
                    proof {
                        lemma_scan_none_stays(es@, i as int + 1);
                    }
                    return None;
                }
                if index < PARAMETERS as u64 {
                    let k = index as usize;
                    match e.value {
                        None => {
                            proof {
                                lemma_scan_none_stays(es@, i as int + 1);
                            }
                            return None;
                        },
                        Some(v) => {
                            if !e.valid || acc[k].is_some() {
                                proof {
                                    lemma_scan_none_stays(es@, i as int + 1);
                                }
                                return None;
                            }
                            acc.set(k, Some(v));
                        },
                    }
                }
            },
        }
        i += 1;
    }
    assert(es@.subrange(0, es@.len() as int) =~= es@);
    let mut out: Vec<V> = Vec::new();
    let mut k: usize = 0;
    while k < PARAMETERS
        invariant
            k <= PARAMETERS,
            acc@.len() == PARAMETERS,
            scan(es@) == Some(acc@),
            out@.len() == k,
            forall|j: int| 0 <= j < k ==> (#[trigger] acc@[j]) is Some,
            forall|j: int| 0 <= j < k ==> #[trigger] out@[j] == acc@[j]->0,
        decreases PARAMETERS - k,
    {
        match acc[k] {
            Some(v) => {
                assert(acc@[k as int] == Some(v));
                out.push(v);
            },
            None => {
                assert(acc@[k as int] is None);
                assert(snapshot_spec(Some(es@)) is None);
                return None;
            },
        }
        k += 1;
    }
    assert(out@ =~= Seq::new(PARAMETERS as nat, |j: int| acc@[j]->0));
    assert(forall|j: int| 0 <= j < PARAMETERS ==> (#[trigger] acc@[j]) is Some);
    assert(snapshot_spec(Some(es@)) == Some(out@));
    Some(out)
}

proof fn lemma_scan_none_stays<V>(es: Seq<SnapshotEntry<V>>, k: int)
    requires
        0 <= k <= es.len(),
        scan(es.subrange(0, k)) is None,
    ensures
        scan(es) is None,
    decreases es.len() - k,
{
    if k < es.len() {
        assert(es.subrange(0, k + 1).drop_last() =~= es.subrange(0, k));
        lemma_scan_none_stays(es, k + 1);
    } else {
        assert(es.subrange(0, k) =~= es);
    }
}


/// A sound-page control: element id, parameter index, decimals shown, unit.
#[derive(Clone, Copy)]
pub struct Control {
    pub id: &'static str,
    pub index: usize,
    pub decimals: usize,
    pub unit: &'static str,
}

/// Number of sound-page controls besides the gain.
pub const CONTROL_COUNT: usize = 18;

/// The sound-page controls, in page order. The Hammer section owns the id
/// `hammer`, so the hammer mass control is `hammer-mass`.
pub open spec fn control_at(k: int) -> Control {
    if k == 0 {
        Control { id: "law", index: 1, decimals: 0, unit: "" }
    } else if k == 1 {
        Control { id: "distance", index: 2, decimals: 2, unit: " mm" }
    } else if k == 2 {
        Control { id: "alignment", index: 3, decimals: 2, unit: " mm" }
    } else if k == 3 {
        Control { id: "hardness", index: 4, decimals: 3, unit: "" }
    } else if k == 4 {
        Control { id: "sustain", index: 5, decimals: 3, unit: "" }
    } else if k == 5 {
        Control { id: "bell", index: 6, decimals: 3, unit: "" }
    } else if k == 6 {
        Control { id: "dynamics", index: 7, decimals: 3, unit: "" }
    } else if k == 7 {
        Control { id: "bass", index: 8, decimals: 1, unit: " dB" }
    } else if k == 8 {
        Control { id: "treble", index: 9, decimals: 1, unit: " dB" }
    } else if k == 9 {
        Control { id: "vibrato", index: 10, decimals: 0, unit: "" }
    } else if k == 10 {
        Control { id: "speed", index: 11, decimals: 2, unit: " Hz" }
    } else if k == 11 {
        Control { id: "intensity", index: 12, decimals: 3, unit: "" }
    } else if k == 12 {
        Control { id: "preamp", index: 13, decimals: 0, unit: "" }
    } else if k == 13 {
        Control { id: "bass-boost", index: 14, decimals: 3, unit: "" }
    } else if k == 14 {
        Control { id: "hammer-mass", index: 15, decimals: 3, unit: "" }
    } else if k == 15 {
        Control { id: "tine", index: 16, decimals: 3, unit: "" }
    } else if k == 16 {
        Control { id: "pole", index: 17, decimals: 3, unit: "" }
    } else {
        Control { id: "twist", index: 18, decimals: 3, unit: "" }
    }
}

pub fn control(k: usize) -> (r: Option<Control>)
    ensures
        k < CONTROL_COUNT ==> r == Some(control_at(k as int)),
        k >= CONTROL_COUNT ==> r is None,
{
    if k == 0 {
        Some(Control { id: "law", index: 1, decimals: 0, unit: "" })
    } else if k == 1 {
        Some(Control { id: "distance", index: 2, decimals: 2, unit: " mm" })
    } else if k == 2 {
        Some(Control { id: "alignment", index: 3, decimals: 2, unit: " mm" })
    } else if k == 3 {
        Some(Control { id: "hardness", index: 4, decimals: 3, unit: "" })
    } else if k == 4 {
        Some(Control { id: "sustain", index: 5, decimals: 3, unit: "" })
    } else if k == 5 {
        Some(Control { id: "bell", index: 6, decimals: 3, unit: "" })
    } else if k == 6 {
        Some(Control { id: "dynamics", index: 7, decimals: 3, unit: "" })
    } else if k == 7 {
        Some(Control { id: "bass", index: 8, decimals: 1, unit: " dB" })
    } else if k == 8 {
        Some(Control { id: "treble", index: 9, decimals: 1, unit: " dB" })
    } else if k == 9 {
        Some(Control { id: "vibrato", index: 10, decimals: 0, unit: "" })
    } else if k == 10 {
        Some(Control { id: "speed", index: 11, decimals: 2, unit: " Hz" })
    } else if k == 11 {
        Some(Control { id: "intensity", index: 12, decimals: 3, unit: "" })
    } else if k == 12 {
        Some(Control { id: "preamp", index: 13, decimals: 0, unit: "" })
    } else if k == 13 {
        Some(Control { id: "bass-boost", index: 14, decimals: 3, unit: "" })
    } else if k == 14 {
        Some(Control { id: "hammer-mass", index: 15, decimals: 3, unit: "" })
    } else if k == 15 {
        Some(Control { id: "tine", index: 16, decimals: 3, unit: "" })
    } else if k == 16 {
        Some(Control { id: "pole", index: 17, decimals: 3, unit: "" })
    } else if k == 17 {
        Some(Control { id: "twist", index: 18, decimals: 3, unit: "" })
    } else {
        None
    }
}

/// Ids the panel resolves directly, besides the control table.
pub fn fixed_id(k: usize) -> (r: Option<&'static str>)
    ensures
        k < 7 <==> r is Some,
        k == 0 ==> r == Some("status"),
        k == 1 ==> r == Some("program-detail"),
        k == 2 ==> r == Some("gain"),
        k == 3 ==> r == Some("gain-number"),
        k == 4 ==> r == Some("stage-controls"),
        k == 5 ==> r == Some("console-controls"),
        k == 6 ==> r == Some("vibrato-control"),
{
    if k == 0 {
        Some("status")
    } else if k == 1 {
        Some("program-detail")
    } else if k == 2 {
        Some("gain")
    } else if k == 3 {
        Some("gain-number")
    } else if k == 4 {
        Some("stage-controls")
    } else if k == 5 {
        Some("console-controls")
    } else if k == 6 {
        Some("vibrato-control")
    } else {
        None
    }
}

/// The program a previous or next button moves to among `count` sounds: the
/// neighbour of the selected one, wrapping around, or the first when the
/// selected sound is not offered.
pub open spec fn adjacent_spec(count: int, current: Option<int>, forward: bool) -> int {
    match current {
        None => 0,
        Some(i) => if forward {
            (i + 1) % count
        } else {
            (i + count - 1) % count
        },
    }
}

/// The first position of `x` in `ids`.
pub open spec fn first_index_of(ids: Seq<Seq<char>>, x: Seq<char>) -> Option<int> {
    if ids.contains(x) {
        Some(choose|i: int| 0 <= i < ids.len() && ids[i] == x && forall|j: int| 0 <= j < i ==> ids[j] != x)
    } else {
        None
    }
}

pub fn adjacent_sound(sounds: &Vec<Sound>, selected: &String, forward: bool) -> (r: Option<usize>)
    ensures
        sounds@.len() == 0 ==> r is None,
        sounds@.len() > 0 ==> r == Some(
            adjacent_spec(
                sounds@.len() as int,
                first_index_of(sounds@.map_values(|s: Sound| s.id@), selected@),
                forward,
            ) as usize,
        ),
{
    let count = sounds.len();
    if count == 0 {
        return None;
    }
    let ghost ids = sounds@.map_values(|s: Sound| s.id@);
    let mut i: usize = 0;
    while i < count
        invariant
            count == sounds@.len(),
            ids == sounds@.map_values(|s: Sound| s.id@),
            i <= count,
            forall|j: int| 0 <= j < i ==> ids[j] != selected@,
        decreases count - i,
    {
        if sounds[i].id == *selected {
            proof {
                assert(ids[i as int] == selected@);
                assert(ids.contains(selected@));
                assert(exists|c: int| 0 <= c < ids.len() && ids[c] == selected@ && forall|j: int| 0 <= j < c ==> ids[j] != selected@) by {
                    assert(forall|j: int| 0 <= j < i ==> ids[j] != selected@);
                }
                let c = choose|c: int| 0 <= c < ids.len() && ids[c] == selected@ && forall|j: int| 0 <= j < c ==> ids[j] != selected@;
                if c < i {
                } else if i < c {
                    assert(ids[i as int] != selected@);
                }
            }
            if forward {
                return Some((i + 1) % count);
            } else {
                let k = if i == 0 {
                    count - 1
                } else {
                    i - 1
                };
                proof {
                    let (ii, cc, kk) = (i as int, count as int, k as int);
                    assert((ii + cc - 1) % cc == kk) by (nonlinear_arith)
                        requires
                            0 <= ii < cc,
                            kk == if ii == 0 { cc - 1 } else { ii - 1 },
                    {
                        if ii == 0 {
                            assert(cc - 1 < cc);
                        } else {
                            assert((ii - 1) + cc * 1 == ii + cc - 1);
                        }
                    }
                }
                return Some(k);
            }
        }
        i += 1;
    }
    proof {
        if ids.contains(selected@) {
            let c = choose|c: int| 0 <= c < ids.len() && ids[c] == selected@;
            assert(ids[c] != selected@);
        }
    }
    Some(0)
}

/// The protocol the panel speaks with the host.
pub const PROTOCOL: &'static str = "rackforge.plugin.web@1";
/// The longest host message the panel reads, in bytes of its JSON text.
pub const MAX_MESSAGE: usize = 262144;

/// What the panel makes of a message posted to its window.
#[derive(Clone, Copy, Debug, PartialEq, Eq)]
pub enum Incoming {
    Ignore,
    /// The host's instance context for this instrument.
    Context,
    /// A reply to a request.
    Response,
}

pub open spec fn names(field: Option<&str>, text: Seq<char>) -> bool {
    match field {
        Some(f) => f@ == text,
        None => false,
    }
}

/// A message counts only when the window's parent posted it from the
/// panel's own origin, its JSON text is at most `MAX_MESSAGE` bytes and it
/// speaks the panel's protocol; then a context for this instrument or a
/// response is read, and anything else ignored.
pub open spec fn incoming_spec(
    from_parent: bool,
    origin: Seq<char>,
    own_origin: Seq<char>,
    length: usize,
    protocol: Option<&str>,
    kind: Option<&str>,
    plugin_id: Option<&str>,
) -> Incoming {
    if !from_parent || origin != own_origin || length > MAX_MESSAGE || !names(protocol, PROTOCOL@) {
        Incoming::Ignore
    } else if names(kind, "context"@) && names(plugin_id, crate::program::PLUGIN_ID@) {
        Incoming::Context
    } else if names(kind, "response"@) {
        Incoming::Response
    } else {
        Incoming::Ignore
    }
}

fn field_is(field: Option<&str>, text: &str) -> (r: bool)
    ensures
        r == names(field, text@),
{
    match field {
        Some(f) => same_key(f, text),
        None => false,
    }
}

/// Sorts a message posted to the panel's window. `length` is the byte length
/// of its JSON text, and `protocol`, `kind` and `plugin_id` its `protocol`,
/// `kind` and `instance.plugin_id` strings, `None` where a field is missing,
/// not a string, or the text does not parse.
pub fn incoming(
    from_parent: bool,
    origin: &str,
    own_origin: &str,
    length: usize,
    protocol: Option<&str>,
    kind: Option<&str>,
    plugin_id: Option<&str>,
) -> (r: Incoming)
    ensures
        r == incoming_spec(from_parent, origin@, own_origin@, length, protocol, kind, plugin_id),
{
    if !from_parent || !same_key(origin, own_origin) || length > MAX_MESSAGE || !field_is(
        protocol,
        PROTOCOL,
    ) {
        Incoming::Ignore
    } else if field_is(kind, "context") && field_is(plugin_id, crate::program::PLUGIN_ID) {
        Incoming::Context
    } else if field_is(kind, "response") {
        Incoming::Response
    } else {
        Incoming::Ignore
    }
}

/// The lighting a context asks the page for: `day` or `stage`, else none.
pub fn lighting(requested: Option<&str>) -> (r: Option<&str>)
    ensures
        (names(requested, "day"@) || names(requested, "stage"@)) ==> r == requested,
        !(names(requested, "day"@) || names(requested, "stage"@)) ==> r is None,
{
    if field_is(requested, "day") || field_is(requested, "stage") {
        requested
    } else {
        None
    }
}

/// The id of the panel section at `index`, in tab order.
pub fn section_id(index: usize) -> (r: Option<&'static str>)
    ensures
        index < SECTION_COUNT <==> r is Some,
        index == 0 ==> r == Some("instrument"),
        index == 1 ==> r == Some("hammer"),
        index == 2 ==> r == Some("resonator"),
        index == 3 ==> r == Some("pickup"),
        index == 4 ==> r == Some("setup"),
{
    if index == 0 {
        Some("instrument")
    } else if index == 1 {
        Some("hammer")
    } else if index == 2 {
        Some("resonator")
    } else if index == 3 {
        Some("pickup")
    } else if index == 4 {
        Some("setup")
    } else {
        None
    }
}

fn same_key(a: &str, b: &str) -> (r: bool)
    ensures
        r == (a@ == b@),
{
    a.to_owned() == b.to_owned()
}

/// The section a key press on the tab of section `index` moves to: the arrows
/// step around the tabs, Home and End jump to the first and last; any other
/// key does nothing.
pub fn next_section(index: usize, key: &str) -> (r: Option<usize>)
    requires
        index < SECTION_COUNT,
    ensures
        key@ == "ArrowRight"@ ==> r == Some(((index + 1) % SECTION_COUNT as int) as usize),
        key@ == "ArrowLeft"@ ==> r == Some(((index + SECTION_COUNT - 1) % SECTION_COUNT as int) as usize),
        key@ == "Home"@ ==> r == Some(0usize),
        key@ == "End"@ ==> r == Some((SECTION_COUNT - 1) as usize),
        key@ != "ArrowRight"@ && key@ != "ArrowLeft"@ && key@ != "Home"@ && key@ != "End"@ ==> r is None,
{
    proof {
        reveal_strlit("ArrowRight");
        reveal_strlit("ArrowLeft");
        reveal_strlit("Home");
        reveal_strlit("End");
        assert("ArrowRight"@.len() == 10);
        assert("ArrowLeft"@.len() == 9);
        assert("Home"@.len() == 4);
        assert("End"@.len() == 3);
    }
    if same_key(key, "ArrowRight") {
        Some((index + 1) % SECTION_COUNT)
    } else if same_key(key, "ArrowLeft") {
        Some((index + SECTION_COUNT - 1) % SECTION_COUNT)
    } else if same_key(key, "Home") {
        Some(0)
    } else if same_key(key, "End") {
        Some(SECTION_COUNT - 1)
    } else {
        None
    }
}

/// Repeated edits of one parameter before it is sent coalesce into the last.
pub proof fn law_edits_coalesce<V, T>(c: ClientView<V, T>, index: usize, first: V, second: V)
    requires
        c.wf(),
        index < PARAMETERS,
        c.loaded,
        !c.selecting(),
    ensures
        c.after_queue(index, first, true).after_queue(index, second, true).queued[index as int]
            == Some(second),
{
}

/// A parameter reply that was on its way when the host changed program is
/// not applied: the values stay and the panel rereads.
pub proof fn law_program_change_voids_parameter_reply<V, T>(
    c: ClientView<V, T>,
    op: Operation<V>,
    ok: Option<bool>,
    set_value: Option<V>,
    snapshot: Option<Seq<V>>,
)
    requires
        !(op is Select),
        c.pending_revision != c.revision,
    ensures
        c.answered(op, ok, set_value, snapshot).values == c.values,
        c.answered(op, ok, set_value, snapshot).refresh,
        c.answered(op, ok, set_value, snapshot).pending is None,
{
}

/// A selection that timed out is never sent again: the panel rereads the
/// host's state and reports the timeout instead.
pub proof fn law_timed_out_selection_is_not_replayed<V, T>(c: ClientView<V, T>, poll: bool)
    requires
        c.wf(),
        c.pending matches Some(p) && p.1 is Select,
    ensures
        c.expired().selection is None,
        c.expired().selection_error == Some(timeout_error()),
        c.expired().next_request(poll) == Some(Operation::<V>::Fetch),
        !c.expired().loaded,
{
}

/// A refused selection is reported and not retried; the panel rereads.
pub proof fn law_refused_selection_is_reported_not_retried<V, T>(c: ClientView<V, T>, ok: Option<bool>, set_value: Option<V>, snapshot: Option<Seq<V>>, poll: bool)
    requires
        c.wf(),
        c.selection is None,
        ok != Some(true),
    ensures
        c.answered(Operation::Select, ok, set_value, snapshot).selection_error == Some(selection_failed()),
        c.answered(Operation::Select, ok, set_value, snapshot).next_request(poll) == Some(Operation::<V>::Fetch),
{
}

/// A program selection drops the queued edits and waits for the write in
/// flight; once that write is answered, the selection is what is sent next.
pub proof fn law_selection_waits_for_the_write_in_flight<V, T>(
    c: ClientView<V, T>,
    id: Seq<char>,
    ok: Option<bool>,
    set_value: Option<V>,
    snapshot: Option<Seq<V>>,
    poll: bool,
)
    requires
        c.wf(),
        c.loaded,
        !c.selecting(),
        c.sounds.contains(id),
        c.pending matches Some(p) && p.1 is Write,
    ensures
        c.after_select(id).queued == no_queue::<V>(),
        c.after_select(id).pending == c.pending,
        c.after_select(id).answered((c.pending->0).1, ok, set_value, snapshot).next_request(poll)
            == Some(Operation::<V>::Select),
{
}

/// A panel that shows queued edits shows them over the host's values.
pub proof fn law_queued_edit_is_shown<V, T>(c: ClientView<V, T>, index: usize, value: V)
    requires
        c.wf(),
        index < PARAMETERS,
        c.loaded,
        !c.selecting(),
    ensures
        c.after_queue(index, value, true).shown(index as int) == value,
{
}

/// What a well formed snapshot read so far says of its entries: each names
/// an index; each in-range entry is valid, has a value, and is what `acc`
/// holds for its index; every index `acc` holds was named; and no in-range
/// index is named twice.
pub open spec fn scan_facts<V>(es: Seq<SnapshotEntry<V>>, acc: Seq<Option<V>>) -> bool {
    &&& acc.len() == PARAMETERS
    &&& forall|k: int| 0 <= k < es.len() ==> (#[trigger] es[k]).index is Some
    &&& forall|k: int|
        0 <= k < es.len() && (#[trigger] es[k]).index->0 < PARAMETERS ==> es[k].valid
            && es[k].value is Some && acc[es[k].index->0 as int] == es[k].value
    &&& forall|i: int|
        0 <= i < PARAMETERS && (#[trigger] acc[i]) is Some ==> exists|k: int|
            0 <= k < es.len() && (#[trigger] es[k]).index == Some(i as u64)
    &&& forall|k: int, j: int|
        0 <= k < j < es.len() && (#[trigger] es[k]).index == (#[trigger] es[j]).index
            ==> es[k].index->0 >= PARAMETERS
}

proof fn lemma_scan_facts<V>(es: Seq<SnapshotEntry<V>>)
    ensures
        scan(es) matches Some(acc) ==> scan_facts(es, acc),
    decreases es.len(),
{
    if es.len() > 0 {
        let pre = es.drop_last();
        let e = es.last();
        lemma_scan_facts(pre);
        lemma_scan_len(pre);
        if let Some(acc0) = scan(pre) {
            if let Some(acc) = scan(es) {
                assert forall|k: int| 0 <= k < es.len() implies (#[trigger] es[k]).index is Some by {
                    if k < pre.len() {
                        assert(es[k] == pre[k]);
                    }
                }
                assert forall|k: int|
                    0 <= k < es.len() && (#[trigger] es[k]).index->0 < PARAMETERS implies es[k].valid
                        && es[k].value is Some && acc[es[k].index->0 as int] == es[k].value by {
                    if k < pre.len() {
                        assert(es[k] == pre[k]);
                        let i = pre[k].index->0;
                        if e.index->0 < PARAMETERS {
                            assert(acc0[i as int] is Some);
                            assert(acc0[e.index->0 as int] is None);
                        }
                    }
                }
                assert forall|i: int| 0 <= i < PARAMETERS && (#[trigger] acc[i]) is Some implies exists|k: int|
                    0 <= k < es.len() && (#[trigger] es[k]).index == Some(i as u64) by {
                    if e.index == Some(i as u64) {
                        assert(es[es.len() - 1] == e);
                    } else {
                        assert(acc0[i] is Some);
                        let k = choose|k: int| 0 <= k < pre.len() && (#[trigger] pre[k]).index == Some(i as u64);
                        assert(es[k] == pre[k]);
                    }
                }
                assert forall|k: int, j: int|
                    0 <= k < j < es.len() && (#[trigger] es[k]).index == (#[trigger] es[j]).index
                        implies es[k].index->0 >= PARAMETERS by {
                    assert(es[k] == pre[k]);
                    if j < pre.len() {
                        assert(es[j] == pre[j]);
                    } else {
                        assert(es[j] == e);
                        if e.index->0 < PARAMETERS {
                            assert(acc0[pre[k].index->0 as int] is Some);
                        }
                    }
                }
            }
        }
    }
}

/// Some entry names parameter `i`, is valid, and carries `value`.
pub open spec fn names_parameter<V>(es: Seq<SnapshotEntry<V>>, i: int, value: V) -> bool {
    exists|k: int|
        0 <= k < es.len() && (#[trigger] es[k]).index == Some(i as u64) && es[k].valid
            && es[k].value == Some(value)
}

/// A snapshot the panel accepts names every parameter exactly once, each
/// with a value in its parameter's domain, and the panel takes those values.
pub proof fn law_accepted_snapshot_names_every_parameter_once<V>(es: Seq<SnapshotEntry<V>>, values: Seq<V>)
    requires
        snapshot_spec(Some(es)) == Some(values),
    ensures
        values.len() == PARAMETERS,
        forall|k: int| 0 <= k < es.len() ==> (#[trigger] es[k]).index is Some,
        forall|i: int|
            0 <= i < PARAMETERS ==> #[trigger] names_parameter(es, i, values[i]),
        forall|k: int, j: int|
            0 <= k < j < es.len() && (#[trigger] es[k]).index == (#[trigger] es[j]).index
                ==> es[k].index->0 >= PARAMETERS,
{
    lemma_scan_facts(es);
    let acc = scan(es)->0;
    assert forall|i: int| 0 <= i < PARAMETERS implies #[trigger] names_parameter(es, i, values[i]) by {
        assert(acc[i] is Some);
        let k = choose|k: int| 0 <= k < es.len() && (#[trigger] es[k]).index == Some(i as u64);
        assert(acc[es[k].index->0 as int] == es[k].value);
        assert(values[i] == acc[i]->0);
        assert(es[k].value->0 == values[i]);
    }
}

/// The editor field that edits what panel control `j` drives.
pub open spec fn editor_position(j: int) -> int {
    if j == 0 {
        7
    } else if j <= 6 {
        j - 1
    } else {
        j + 1
    }
}

/// The control that drives parameter `n`, inverse of the control table.
spec fn control_of_parameter(n: int) -> int {
    n - 1
}

/// The editor field that edits parameter `n`, inverse of the field table.
spec fn field_of_parameter(n: int) -> int {
    if n == 0 {
        6
    } else if n == 1 {
        7
    } else if n <= 7 {
        n - 2
    } else {
        n
    }
}

proof fn lemma_tables_invert()
    ensures
        forall|j: int| 0 <= j < CONTROL_COUNT ==> control_of_parameter(#[trigger] control_at(j).index as int) == j,
        forall|k: int| 0 <= k < FIELD_COUNT ==> field_of_parameter(#[trigger] field_at(k).index as int) == k,
{
}

/// Every panel control and every editor field drives a parameter of its
/// own: no two controls share a parameter, no two fields do, the controls
/// leave the gain to its own slider, and a control and an editor field of the
/// same name, or the hammer-mass control and the editor's hammer field,
/// drive the same parameter.
pub proof fn law_controls_and_fields_drive_their_own_parameters()
    ensures
        forall|j: int| 0 <= j < CONTROL_COUNT ==> 1 <= #[trigger] control_at(j).index < PARAMETERS,
        forall|j1: int, j2: int|
            0 <= j1 < j2 < CONTROL_COUNT ==> #[trigger] control_at(j1).index != #[trigger] control_at(j2).index,
        forall|k: int| 0 <= k < FIELD_COUNT ==> #[trigger] field_at(k).index < PARAMETERS,
        forall|k1: int, k2: int|
            0 <= k1 < k2 < FIELD_COUNT ==> #[trigger] field_at(k1).index != #[trigger] field_at(k2).index,
        forall|j: int|
            0 <= j < CONTROL_COUNT && j != 14 ==> field_at(editor_position(j)).id@ == (
            #[trigger] control_at(j)).id@,
        forall|j: int|
            0 <= j < CONTROL_COUNT ==> field_at(editor_position(j)).index as usize == (
            #[trigger] control_at(j)).index,
        field_at(editor_position(14)).id@ == "hammer"@,
        control_at(14).id@ == "hammer-mass"@,
{
    lemma_tables_invert();
    assert forall|j1: int, j2: int|
        0 <= j1 < j2 < CONTROL_COUNT implies #[trigger] control_at(j1).index != #[trigger] control_at(j2).index by {
        if control_at(j1).index == control_at(j2).index {
            assert(control_of_parameter(control_at(j1).index as int) == j1);
            assert(control_of_parameter(control_at(j2).index as int) == j2);
        }
    }
    assert forall|k1: int, k2: int|
        0 <= k1 < k2 < FIELD_COUNT implies #[trigger] field_at(k1).index != #[trigger] field_at(k2).index by {
        if field_at(k1).index == field_at(k2).index {
            assert(field_of_parameter(field_at(k1).index as int) == k1);
            assert(field_of_parameter(field_at(k2).index as int) == k2);
        }
    }
}

} // verus!
