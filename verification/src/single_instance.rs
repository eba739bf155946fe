//! One running copy per user.
//!
//! Every copy publishes an event by which it can be asked to show its window, and then takes a
//! mutex. Whoever finds the mutex taken signals the event and leaves.

use vstd::prelude::*;

verus! {

/// The name that every copy of the client shares. Each user who is logged in has their own.
pub const APP_NAME: &'static str = "Local\\DrComCampus-Rust-SingleInstance";

/// The status code of a mutex that another process made.
pub const ALREADY_EXISTS: u32 = 183;

/// The name of the event that goes with a mutex.
pub open spec fn event_of(name: Seq<char>) -> Seq<char> {
    name + "-Activate"@
}

/// The name of the event that goes with a mutex.
pub fn activation_name(name: &str) -> (event: String)
    ensures
        event@ == event_of(name@),
{
    let mut event = name.to_string();
    event.append("-Activate");
    event
}

/// What a copy that starts is to do.
#[derive(Debug, Clone, Copy, PartialEq, Eq, Structural)]
pub enum Launch {
    /// Carry on, without a guard: a later copy cannot tell that this one runs.
    Unguarded,
    /// Carry on as the copy that later ones ask to show its window.
    Primary,
    /// Ask the copy that runs to show its window, and leave.
    Duplicate,
}

/// What a copy is, given the status code after the mutex was asked for, or nothing where the event
/// could not be made. To start without a guard is better than not to start.
pub open spec fn launched(mutex_status: Option<u32>) -> Launch {
    match mutex_status {
        None => Launch::Unguarded,
        Some(status) => if status == ALREADY_EXISTS {
            Launch::Duplicate
        } else {
            Launch::Primary
        },
    }
}

/// What to do, given the status code after the mutex was asked for, or nothing where the event
/// could not be made.
pub fn claim(mutex_status: Option<u32>) -> (launch: Launch)
    ensures
        launch == launched(mutex_status),
{
    match mutex_status {
        None => Launch::Unguarded,
        Some(status) => if status == ALREADY_EXISTS {
            Launch::Duplicate
        } else {
            Launch::Primary
        },
    }
}

/// How a copy that starts behaves.
#[derive(Debug, Clone, PartialEq, Eq)]
pub struct Conduct {
    /// The event to signal, which has the copy that runs show its window.
    pub signal: Option<String>,
    /// The event to wait for from now on; each time it is signalled the window is to be shown.
    pub listen: Option<String>,
    /// Whether the copy keeps its handles and starts up; else it closes them and leaves.
    pub carries_on: bool,
}

/// The event that a copy signals.
pub open spec fn signalled_by(launch: Launch, name: Seq<char>) -> Option<Seq<char>> {
    if launch is Duplicate {
        Some(event_of(name))
    } else {
        None
    }
}

/// The event that a copy waits for.
pub open spec fn awaited_by(launch: Launch, name: Seq<char>) -> Option<Seq<char>> {
    if launch is Primary {
        Some(event_of(name))
    } else {
        None
    }
}

/// What a text that may be missing holds.
pub open spec fn words_of(words: Option<String>) -> Option<Seq<char>> {
    match words {
        Some(words) => Some(words@),
        None => None,
    }
}

impl Launch {
    /// How a copy with this name behaves.
    pub fn conduct(self, name: &str) -> (conduct: Conduct)
        ensures
            words_of(conduct.signal) == signalled_by(self, name@),
            words_of(conduct.listen) == awaited_by(self, name@),
            conduct.carries_on == !(self is Duplicate),
    {
        match self {
            Launch::Unguarded => Conduct { signal: None, listen: None, carries_on: true },
            Launch::Primary => Conduct {
                signal: None,
                listen: Some(activation_name(name)),
                carries_on: true,
            },
            Launch::Duplicate => Conduct {
                signal: Some(activation_name(name)),
                listen: None,
                carries_on: false,
            },
        }
    }
}

/// A named object of the system: an event or a mutex, with its open handles and how often it was
/// signalled. It exists as long as a handle to it is open.
pub struct NamedObject {
    pub is_mutex: bool,
    pub handles: nat,
    pub signals: nat,
}

/// The named objects of the system. Events and mutexes share their names.
pub type Objects = Map<Seq<char>, NamedObject>;

/// The status code of a mutex whose name an event bears.
pub const INVALID_HANDLE: u32 = 6;

/// Whether an object can be opened: there is none of that name, or one of that kind.
pub open spec fn can_open(objects: Objects, name: Seq<char>, is_mutex: bool) -> bool {
    objects.dom().contains(name) ==> objects[name].is_mutex == is_mutex
}

/// One more handle to an object, which is made where there is none.
pub open spec fn opened(objects: Objects, name: Seq<char>, is_mutex: bool) -> Objects {
    objects.insert(
        name,
        if objects.dom().contains(name) {
            NamedObject { handles: objects[name].handles + 1, ..objects[name] }
        } else {
            NamedObject { is_mutex, handles: 1, signals: 0 }
        },
    )
}

/// One handle less to an object, which goes with the last.
pub open spec fn closed(objects: Objects, name: Seq<char>) -> Objects {
    if objects[name].handles <= 1 {
        objects.remove(name)
    } else {
        objects.insert(
            name,
            NamedObject { handles: (objects[name].handles - 1) as nat, ..objects[name] },
        )
    }
}

/// An event is signalled.
pub open spec fn signalled(objects: Objects, name: Seq<char>) -> Objects {
    objects.insert(
        name,
        NamedObject { signals: objects[name].signals + 1, ..objects[name] },
    )
}

/// What becomes of a copy that starts, and of the system's objects: it opens the event, then the
/// mutex, and does what `claim` and `conduct` say.
pub open spec fn claimed(objects: Objects, name: Seq<char>) -> (Launch, Objects) {
    let event = event_of(name);
    if !can_open(objects, event, false) {
        (launched(None), objects)
    } else {
        let with_event = opened(objects, event, false);
        if !can_open(with_event, name, true) {
            (launched(Some(INVALID_HANDLE)), with_event)
        } else {
            let status = if with_event.dom().contains(name) {
                ALREADY_EXISTS
            } else {
                0
            };
            let with_both = opened(with_event, name, true);
            let launch = launched(Some(status));
            match signalled_by(launch, name) {
                Some(asked) => (launch, closed(signalled(closed(with_both, name), asked), event)),
                None => (launch, with_both),
            }
        }
    }
}

/// The copy that came first ends, and closes its mutex and its event.
pub open spec fn released(objects: Objects, name: Seq<char>) -> Objects {
    closed(closed(objects, name), event_of(name))
}

/// Whether nothing bears a name or that of its event.
pub open spec fn free(objects: Objects, name: Seq<char>) -> bool {
    !objects.dom().contains(name) && !objects.dom().contains(event_of(name))
}

/// Whether a copy that came first runs.
pub open spec fn held(objects: Objects, name: Seq<char>) -> bool {
    &&& objects.dom().contains(name)
    &&& objects[name].is_mutex
    &&& objects[name].handles == 1
    &&& objects.dom().contains(event_of(name))
    &&& !objects[event_of(name)].is_mutex
    &&& objects[event_of(name)].handles == 1
}

proof fn lemma_event_name(name: Seq<char>)
    ensures
        event_of(name) != name,
{
    reveal_strlit("-Activate");
    assert(event_of(name).len() == name.len() + 9);
}

proof fn lemma_event_names_differ(name: Seq<char>, other: Seq<char>)
    requires
        name != other,
    ensures
        event_of(name) != event_of(other),
{
    if event_of(name) == event_of(other) {
        reveal_strlit("-Activate");
        assert(event_of(name).len() == name.len() + 9);
        assert(event_of(other).len() == other.len() + 9);
        assert(event_of(name).take(name.len() as int) =~= name);
        assert(event_of(other).take(other.len() as int) =~= other);
    }
}

/// The first copy to start becomes the one that later ones ask. When it ends, everything is as it
/// was before, so that the next copy is the first again.
pub proof fn law_the_first_copy_is_the_primary(objects: Objects, name: Seq<char>)
    requires
        free(objects, name),
    ensures
        claimed(objects, name).0 == Launch::Primary,
        held(claimed(objects, name).1, name),
        released(claimed(objects, name).1, name) == objects,
{
    lemma_event_name(name);
    assert(released(claimed(objects, name).1, name) =~= objects);
}

/// While the first copy runs, a further one is a duplicate: it signals the event that the first one
/// waits for, once, and leaves everything else as it was. So the first copy stays the first.
pub proof fn law_a_duplicate_wakes_the_first_copy(objects: Objects, name: Seq<char>)
    requires
        held(objects, name),
    ensures
        claimed(objects, name).0 == Launch::Duplicate,
        awaited_by(Launch::Primary, name) == signalled_by(Launch::Duplicate, name),
        claimed(objects, name).1 == signalled(objects, event_of(name)),
        held(claimed(objects, name).1, name),
{
    lemma_event_name(name);
    assert(claimed(objects, name).1 =~= signalled(objects, event_of(name)));
}

/// When the first copy has ended, however many duplicates came in between, its name is free again
/// and the next copy is the first.
pub proof fn law_the_name_is_free_again(objects: Objects, name: Seq<char>)
    requires
        held(objects, name),
    ensures
        free(released(objects, name), name),
        claimed(released(objects, name), name).0 == Launch::Primary,
{
    lemma_event_name(name);
    law_the_first_copy_is_the_primary(released(objects, name), name);
}

/// Copies under different names do not affect each other: whatever one of them does, what the other
/// finds is the same. Names of which one is that of the other's event are left out.
pub proof fn law_names_do_not_interfere(objects: Objects, name: Seq<char>, other: Seq<char>)
    requires
        name != other,
        name != event_of(other),
        other != event_of(name),
    ensures
        ({
            let claim = claimed(objects, other).1;
            let end = released(objects, other);
            &&& found_alike(objects, claim, name)
            &&& found_alike(objects, end, name)
        }),
{
    lemma_event_name(name);
    lemma_event_name(other);
    lemma_event_names_differ(name, other);
}

/// Whether a name and its event stand for the same in both, so that a copy finds the same.
pub open spec fn found_alike(objects: Objects, others: Objects, name: Seq<char>) -> bool {
    &&& objects.dom().contains(name) == others.dom().contains(name)
    &&& objects.dom().contains(name) ==> objects[name] == others[name]
    &&& objects.dom().contains(event_of(name)) == others.dom().contains(event_of(name))
    &&& objects.dom().contains(event_of(name)) ==> objects[event_of(name)] == others[event_of(
        name,
    )]
    &&& claimed(objects, name).0 == claimed(others, name).0
    &&& held(objects, name) == held(others, name)
    &&& free(objects, name) == free(others, name)
}

/// A copy is a duplicate where the mutex existed before, goes unguarded where there is no event to
/// be asked by, and is the first one otherwise. Only a duplicate signals, only the first one
/// listens, and both mean the event that is named after the mutex.
pub proof fn law_what_a_copy_is(status: Option<u32>, name: Seq<char>)
    ensures
        launched(status) == Launch::Unguarded <==> status is None,
        launched(status) == Launch::Duplicate <==> status == Some(183u32),
        launched(status) == Launch::Primary <==> (status is Some && status->0 != 183),
        signalled_by(Launch::Duplicate, name) == Some(name + "-Activate"@),
        signalled_by(Launch::Primary, name) is None,
        signalled_by(Launch::Unguarded, name) is None,
        awaited_by(Launch::Primary, name) == Some(name + "-Activate"@),
        awaited_by(Launch::Duplicate, name) is None,
        awaited_by(Launch::Unguarded, name) is None,
{
}

} // verus!
