//! The threads that watch for changes: of files below the storage directory, and of the card
//! slot.

use vstd::prelude::*;

use crate::controller::{AppState, SubEvent};
use crate::utils;
use crate::utils::Device;

verus! {

/// What the file watcher is to do with a device's directory and all that is below it.
#[derive(Debug, Copy, Clone, PartialEq, Eq, Structural)]
pub enum WatchAction {
    Watch(Device),
    Unwatch(Device),
}

/// The thread that watches files: the state it was last told, and the devices on its list.
pub struct FileNotifier {
    pub my_last_state: AppState,
    pub watching_list: Vec<Device>,
}

/// The device that recordings go to in a state, where there is one.
pub open spec fn device_in(state: AppState) -> Option<Device> {
    match state {
        AppState::UsingSD => Some(Device::SD),
        AppState::UsingLocal => Some(Device::Local),
        _ => None,
    }
}

/// To let go of every device on a list.
pub open spec fn unwatch_each(list: Seq<Device>) -> Seq<WatchAction> {
    Seq::new(list.len(), |i: int| WatchAction::Unwatch(list[i]))
}

/// What the file watcher is to do when the state becomes `state`: watch the device in use,
/// unless it is on the list, and let go of all that is on the list where none is in use.
pub open spec fn watch_actions(list: Seq<Device>, state: AppState) -> Seq<WatchAction> {
    match device_in(state) {
        Some(device) => if list.contains(device) {
            Seq::empty()
        } else {
            seq![WatchAction::Watch(device)]
        },
        None => unwatch_each(list),
    }
}

/// The list after that: it holds what is watched, so it is empty once all was let go.
pub open spec fn watching_after(list: Seq<Device>, state: AppState) -> Seq<Device> {
    match device_in(state) {
        Some(device) => if list.contains(device) {
            list
        } else {
            list.push(device)
        },
        None => Seq::empty(),
    }
}

/// What is done when the thread that knew `last` is told `state`, if anything, and the list then.
pub open spec fn on_state(last: AppState, list: Seq<Device>, state: AppState) -> (
    Option<Seq<WatchAction>>,
    Seq<Device>,
) {
    if last == state {
        (None, list)
    } else {
        (Some(watch_actions(list, state)), watching_after(list, state))
    }
}

impl FileNotifier {
    /// No device is on the list twice.
    pub open spec fn wf(self) -> bool {
        self.watching_list@.no_duplicates()
    }

    /// The thread starts out loading, with nothing on its list.
    pub fn new() -> (notifier: Self)
        ensures
            notifier.wf(),
            notifier.my_last_state == AppState::Loading,
            notifier.watching_list@ == Seq::<Device>::empty(),
    {
        FileNotifier { my_last_state: AppState::Loading, watching_list: Vec::new() }
    }

    /// Whether a device is on the list.
    fn is_listed(&self, device: Device) -> (listed: bool)
        ensures
            listed == self.watching_list@.contains(device),
    {
        for i in 0..self.watching_list.len()
            invariant
                forall|k: int| 0 <= k < i ==> self.watching_list@[k] != device,
        {
            if self.watching_list[i] == device {
                return true;
            }
        }
        false
    }

    /// Puts a device on the list and has it watched, unless it is on the list.
    fn watch(&mut self, device: Device) -> (actions: Vec<WatchAction>)
        requires
            old(self).wf(),
        ensures
            final(self).wf(),
            final(self).my_last_state == old(self).my_last_state,
            actions@ == (if old(self).watching_list@.contains(device) {
                Seq::empty()
            } else {
                seq![WatchAction::Watch(device)]
            }),
            final(self).watching_list@ == (if old(self).watching_list@.contains(device) {
                old(self).watching_list@
            } else {
                old(self).watching_list@.push(device)
            }),
    {
        let mut actions: Vec<WatchAction> = Vec::new();
        if !self.is_listed(device) {
            actions.push(WatchAction::Watch(device));
            self.watching_list.push(device);
        }
        actions
    }

    /// Has all devices on the list let go, and clears it.
    fn unwatch_all(&mut self) -> (actions: Vec<WatchAction>)
        ensures
            final(self).my_last_state == old(self).my_last_state,
            final(self).watching_list@ == Seq::<Device>::empty(),
            actions@ == unwatch_each(old(self).watching_list@),
    {
        let mut actions: Vec<WatchAction> = Vec::new();
        for i in 0..self.watching_list.len()
            invariant
                *self == *old(self),
                actions@.len() == i,
                forall|k: int|
                    0 <= k < i ==> actions@[k] == WatchAction::Unwatch(self.watching_list@[k]),
        {
            actions.push(WatchAction::Unwatch(self.watching_list[i]));
        }
        self.watching_list = Vec::new();
        actions
    }

    /// Looks at the state that the thread is told: nothing where it is the one it knows.
    pub fn file_change_notifier(&mut self, state: AppState) -> (actions: Option<Vec<WatchAction>>)
        requires
            old(self).wf(),
        ensures
            final(self).wf(),
            final(self).my_last_state == state,
            actions is None <==> old(self).my_last_state == state,
            actions matches Some(list) ==> list@ == watch_actions(old(self).watching_list@, state),
            final(self).watching_list@ == (if actions is None {
                old(self).watching_list@
            } else {
                watching_after(old(self).watching_list@, state)
            }),
            (match actions {
                Some(list) => Some(list@),
                None => None,
            }, final(self).watching_list@) == on_state(
                old(self).my_last_state,
                old(self).watching_list@,
                state,
            ),
    {
        if self.my_last_state == state {
            return None;
        }
        self.my_last_state = state;
        match state {
            AppState::Loading => Some(self.unwatch_all()),
            AppState::ResetSD => Some(self.unwatch_all()),
            AppState::UsingSD => Some(self.watch(Device::SD)),
            AppState::UsingLocal => Some(self.watch(Device::Local)),
        }
    }
}

/// The devices that are watched once the actions are done, where those in `watched` were.
pub open spec fn watched_after(watched: Set<Device>, actions: Seq<WatchAction>) -> Set<Device>
    decreases actions.len(),
{
    if actions.len() == 0 {
        watched
    } else {
        let before = watched_after(watched, actions.drop_last());
        match actions.last() {
            WatchAction::Watch(device) => before.insert(device),
            WatchAction::Unwatch(device) => before.remove(device),
        }
    }
}

/// The devices that are watched are those on the list, before and after any change of state. So
/// none is watched a second time, and none is let go that is not watched.
pub proof fn watched_devices_are_listed(watched: Set<Device>, list: Seq<Device>, state: AppState)
    requires
        forall|device: Device| watched.contains(device) <==> list.contains(device),
    ensures
        forall|device: Device|
            watched_after(watched, watch_actions(list, state)).contains(device)
                <==> watching_after(list, state).contains(device),
        forall|device: Device|
            watch_actions(list, state).contains(WatchAction::Watch(device)) ==> !watched.contains(
                device,
            ),
        forall|device: Device|
            watch_actions(list, state).contains(WatchAction::Unwatch(device)) ==> watched.contains(
                device,
            ),
{
    let actions = watch_actions(list, state);
    match device_in(state) {
        Some(device) => {
            reveal_with_fuel(watched_after, 2);
            if !list.contains(device) {
                let after = list.push(device);
                assert(after.last() == device);
                assert forall|d: Device| after.contains(d) <==> list.contains(d) || d == device by {
                    if list.contains(d) {
                        assert(after[list.index_of(d)] == d);
                    }
                    if after.contains(d) && d != device {
                        assert(list[after.index_of(d)] == d);
                    }
                }
                assert(actions.drop_last() =~= Seq::empty());
            }
        },
        None => {
            unwatching_ends_watching(watched, list);
            assert(actions == unwatch_each(list));
            assert forall|d: Device| !watched_after(watched, actions).contains(d) by {
                assert(watched.contains(d) ==> list.contains(d));
            }
            assert forall|d: Device| actions.contains(
                WatchAction::Unwatch(d),
            ) implies watched.contains(d) by {
                let i = actions.index_of(WatchAction::Unwatch(d));
                assert(list[i] == d);
                assert(list.contains(d));
            }
        },
    }
}

/// The device in use is watched, whatever the states before.
pub proof fn device_in_use_is_watched(watched: Set<Device>, list: Seq<Device>, state: AppState)
    requires
        forall|d: Device| watched.contains(d) <==> list.contains(d),
        device_in(state) is Some,
    ensures
        watched_after(watched, watch_actions(list, state)).contains(device_in(state)->0),
{
    let device = device_in(state)->0;
    watched_devices_are_listed(watched, list, state);
    if !list.contains(device) {
        assert(list.push(device).last() == device);
    }
    assert(watching_after(list, state).contains(device));
}

/// While no device is in use none is watched.
pub proof fn nothing_is_watched_while_idle(watched: Set<Device>, list: Seq<Device>, state: AppState)
    requires
        forall|device: Device| watched.contains(device) ==> list.contains(device),
        device_in(state) is None,
    ensures
        watched_after(watched, watch_actions(list, state)) == Set::<Device>::empty(),
{
    unwatching_ends_watching(watched, list);
    assert(watch_actions(list, state) == unwatch_each(list));
    assert forall|device: Device| !watched_after(watched, unwatch_each(list)).contains(device) by {
        assert(watched.contains(device) ==> list.contains(device));
    }
    assert(watched_after(watched, watch_actions(list, state)) =~= Set::<Device>::empty());
}

/// To let go of a list leaves what was watched beside it.
proof fn unwatching_ends_watching(watched: Set<Device>, list: Seq<Device>)
    ensures
        forall|device: Device|
            watched_after(watched, unwatch_each(list)).contains(device) <==> watched.contains(
                device,
            ) && !list.contains(device),
    decreases list.len(),
{
    let actions = unwatch_each(list);
    if list.len() > 0 {
        let before = list.drop_last();
        unwatching_ends_watching(watched, before);
        assert(actions.drop_last() =~= unwatch_each(before));
        assert forall|device: Device| list.contains(device) <==> before.contains(device) || device
            == list.last() by {
            if list.contains(device) && device != list.last() {
                let i = list.index_of(device);
                assert(before[i] == device);
            }
            if before.contains(device) {
                let i = before.index_of(device);
                assert(list[i] == device);
            }
        }
    }
}

/// What to tell when the file watcher reports: only what it reports without an error counts.
pub fn watch_reported(is_ok: bool) -> (event: Option<SubEvent>)
    ensures
        event == (if is_ok {
            Some(SubEvent::FileChangeDetect)
        } else {
            None
        }),
{
    if is_ok {
        Some(SubEvent::FileChangeDetect)
    } else {
        None
    }
}

/// What to tell when the card was there or not at the last look, and is or is not now.
pub open spec fn slot_event(last: bool, now: bool) -> Option<SubEvent> {
    if last == now {
        None
    } else if now {
        Some(SubEvent::SDInserted)
    } else {
        Some(SubEvent::SDRemoved)
    }
}

/// Looks at the card slot, in the output of `lsblk -o NAME`, and gives what to tell.
pub fn sd_change_notifier(last_state: &mut bool, lsblk_output: &[u8]) -> (event: Option<SubEvent>)
    ensures
        event == slot_event(*old(last_state), utils::lists(lsblk_output@, utils::SD_DEVICE@)),
        *final(last_state) == utils::lists(lsblk_output@, utils::SD_DEVICE@),
        event == slot_event(*old(last_state), utils::card_is_in(lsblk_output@)),
{
    let state: bool = utils::check_disk_mounted(lsblk_output, utils::SD_DEVICE);
    slot_seen(last_state, state)
}

/// Takes in whether the card is there, and gives what to tell.
pub fn slot_seen(last_state: &mut bool, state: bool) -> (event: Option<SubEvent>)
    ensures
        event == slot_event(*old(last_state), state),
        *final(last_state) == state,
{
    if *last_state != state {
        *last_state = state;
        if state {
            return Some(SubEvent::SDInserted);
        }
        return Some(SubEvent::SDRemoved);
    }
    None
}

/// What is told over a run of looks at the card slot.
pub open spec fn slot_events(last: bool, looks: Seq<bool>) -> Seq<SubEvent>
    decreases looks.len(),
{
    if looks.len() == 0 {
        Seq::empty()
    } else {
        let rest = slot_events(looks[0], looks.drop_first());
        match slot_event(last, looks[0]) {
            Some(event) => seq![event] + rest,
            None => rest,
        }
    }
}

/// Insertions and removals are told in alternation, and an insertion first where there was no
/// card.
pub proof fn slot_events_alternate(last: bool, looks: Seq<bool>)
    ensures
        forall|i: int|
            0 <= i < slot_events(last, looks).len() ==> #[trigger] slot_events(last, looks)[i] == (
            if (i % 2 == 0) == last {
                SubEvent::SDRemoved
            } else {
                SubEvent::SDInserted
            }),
    decreases looks.len(),
{
    if looks.len() > 0 {
        slot_events_alternate(looks[0], looks.drop_first());
        let rest = slot_events(looks[0], looks.drop_first());
        let events = slot_events(last, looks);
        assert forall|i: int| 0 <= i < events.len() implies #[trigger] events[i] == (if (i % 2
            == 0) == last {
            SubEvent::SDRemoved
        } else {
            SubEvent::SDInserted
        }) by {
            if last != looks[0] && i > 0 {
                assert(events[i] == rest[i - 1]);
            }
        }
    }
}

// ---------------------------------------------------------------------------
// Laws
// ---------------------------------------------------------------------------

/// With the card in use the card is watched as well, with the local disk in use the local disk,
/// and nothing while the recorder loads or waits for another card. The list says the same.
pub proof fn watching_follows_the_state(watched: Set<Device>, list: Seq<Device>)
    requires
        forall|device: Device| watched.contains(device) <==> list.contains(device),
    ensures
        watched_after(watched, watch_actions(list, AppState::UsingSD)) == watched.insert(
            Device::SD,
        ),
        watched_after(watched, watch_actions(list, AppState::UsingLocal)) == watched.insert(
            Device::Local,
        ),
        watched_after(watched, watch_actions(list, AppState::Loading)) == Set::<Device>::empty(),
        watched_after(watched, watch_actions(list, AppState::ResetSD)) == Set::<Device>::empty(),
        watching_after(list, AppState::Loading).len() == 0,
        watching_after(list, AppState::ResetSD).len() == 0,
        watching_after(list, AppState::UsingSD).contains(Device::SD),
        watching_after(list, AppState::UsingLocal).contains(Device::Local),
        list.is_prefix_of(watching_after(list, AppState::UsingSD)),
        list.is_prefix_of(watching_after(list, AppState::UsingLocal)),
{
    let sd = AppState::UsingSD;
    let local = AppState::UsingLocal;
    assert(device_in(sd) == Some(Device::SD));
    assert(device_in(local) == Some(Device::Local));
    reveal_with_fuel(watched_after, 2);
    one_device_more(watched, list, sd, Device::SD);
    one_device_more(watched, list, local, Device::Local);
    nothing_is_watched_while_idle(watched, list, AppState::Loading);
    nothing_is_watched_while_idle(watched, list, AppState::ResetSD);
}

/// A device that comes in use is watched beside what is.
proof fn one_device_more(
    watched: Set<Device>,
    list: Seq<Device>,
    state: AppState,
    device: Device,
)
    requires
        forall|d: Device| watched.contains(d) <==> list.contains(d),
        device_in(state) == Some(device),
    ensures
        watched_after(watched, watch_actions(list, state)) == watched.insert(device),
        watching_after(list, state).contains(device),
        list.is_prefix_of(watching_after(list, state)),
{
    reveal_with_fuel(watched_after, 2);
    let actions = watch_actions(list, state);
    if list.contains(device) {
        assert(watched.contains(device));
        assert(watched.insert(device) =~= watched);
    } else {
        assert(actions.last() == WatchAction::Watch(device));
        assert(actions.drop_last() =~= Seq::<WatchAction>::empty());
        assert(list.push(device).last() == device);
    }
}

/// At most one thing is done for a device when it comes in use, and one for each device that is
/// let go.
pub proof fn each_device_is_handled_once(list: Seq<Device>, state: AppState)
    ensures
        state == AppState::UsingSD || state == AppState::UsingLocal ==> watch_actions(
            list,
            state,
        ).len() <= 1,
        state == AppState::Loading || state == AppState::ResetSD ==> watch_actions(
            list,
            state,
        ).len() == list.len() && forall|i: int|
            0 <= i < list.len() ==> #[trigger] watch_actions(list, state)[i]
                == WatchAction::Unwatch(list[i]),
{
}

/// An insertion is told exactly when the card is there and was not, and a removal exactly when it
/// was there and is not.
pub proof fn slot_tells_of_changes(last: bool, now: bool)
    ensures
        slot_event(last, now) == Some(SubEvent::SDInserted) <==> !last && now,
        slot_event(last, now) == Some(SubEvent::SDRemoved) <==> last && !now,
        slot_event(last, now) is None <==> last == now,
{
}

/// The list holds each device at most once.
pub proof fn list_holds_a_device_once(notifier: FileNotifier, i: int, j: int)
    requires
        notifier.wf(),
        0 <= i < notifier.watching_list@.len(),
        0 <= j < notifier.watching_list@.len(),
        notifier.watching_list@[i] == notifier.watching_list@[j],
    ensures
        i == j,
{
}

/// Only a change of state is acted on, and each is: what is watched then goes by the new state.
pub proof fn every_change_of_state_is_acted_on(
    last: AppState,
    list: Seq<Device>,
    state: AppState,
)
    ensures
        on_state(state, list, state) == (None::<Seq<WatchAction>>, list),
        last != state ==> on_state(last, list, state) == (
            Some(watch_actions(list, state)),
            watching_after(list, state),
        ),
{
}

} // verus!
