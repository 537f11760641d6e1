// SPDX-License-Identifier: GPL-2.0-or-later
//! OBS's audio monitoring device: reading it, setting it, listing those
//! there are.

use vstd::prelude::*;

use crate::response::Response;
use crate::text::{has_nul, or_empty};

verus! {

/// What one request reads and writes.
pub struct MonitoringDevice {
    /// The device to set, as (name, id); nothing to only read.
    pub wanted: Option<(String, String)>,
    /// Whether the UI thread got to it.
    pub ran: bool,
    /// What setting the device returned.
    pub applied: bool,
    /// Every device OBS accepts, as (name, id).
    pub devices: Vec<(String, String)>,
    /// The device OBS is monitoring through, as it is live.
    pub current: Option<(String, String)>,
}

/// The characters of an optional pair of texts.
pub open spec fn pair_of(pair: Option<(String, String)>) -> Option<(Seq<char>, Seq<char>)> {
    match pair {
        Some((a, b)) => Some((a@, b@)),
        None => None,
    }
}

/// The device a request asks for: both texts or neither. One without the
/// other cannot be honoured.
pub open spec fn wanted_device(name: Option<Seq<char>>, id: Option<Seq<char>>) -> Result<
    Option<(Seq<char>, Seq<char>)>,
    (),
> {
    match (name, id) {
        (Some(n), Some(i)) => Ok(Some((n, i))),
        (None, None) => Ok(None),
        _ => Err(()),
    }
}

/// Begins a request.
pub fn begin_monitoring(queue: bool, name: Option<String>, id: Option<String>) -> (begun: Result<
    MonitoringDevice,
    Response,
>)
    ensures
        match begun {
            Ok(state) => queue && wanted_device(crate::text::name_of(name), crate::text::name_of(id)) == Ok::<
                Option<(Seq<char>, Seq<char>)>,
                (),
            >(pair_of(state.wanted)) && !state.ran && !state.applied && state.devices@.len() == 0 && state.current is None,
            Err(response) => {
                &&& !queue ==> response@ == crate::response::refused("obs_queue_task unavailable"@)
                &&& queue ==> wanted_device(crate::text::name_of(name), crate::text::name_of(id)) is Err && response@
                    == crate::response::refused("both \"name\" and \"id\" are required to set a device"@)
            },
        },
        begun is Ok <==> queue && (name is Some <==> id is Some),
        begun matches Ok(state) ==> (state.wanted is Some <==> name is Some) && (state.wanted matches Some((n, i)) ==> n@
            == name->0@ && i@ == id->0@),
{
    if !queue {
        return Err(Response::refuse("obs_queue_task unavailable"));
    }
    let wanted = match (name, id) {
        (Some(n), Some(i)) => Some((n, i)),
        (None, None) => None,
        _ => {
            return Err(Response::refuse("both \"name\" and \"id\" are required to set a device"));
        },
    };
    Ok(MonitoringDevice { wanted, ran: false, applied: false, devices: Vec::new(), current: None })
}

/// Adds a device to a list; a text that libobs does not have is empty.
pub fn collect_monitoring_device(devices: &mut Vec<(String, String)>, name: Option<String>, id: Option<String>)
    ensures
        crate::response::pair_views(final(devices)@) == crate::response::pair_views(old(devices)@).push(
            (
                crate::text::text_or_empty(crate::text::name_of(name)),
                crate::text::text_or_empty(crate::text::name_of(id)),
            ),
        ),
        final(devices)@.len() == old(devices)@.len() + 1,
        forall|i: int| 0 <= i < old(devices)@.len() ==> #[trigger] final(devices)@[i] == old(devices)@[i],
        final(devices)@.last().0@ == (match name {
            Some(text) => text@,
            None => Seq::empty(),
        }),
        final(devices)@.last().1@ == (match id {
            Some(text) => text@,
            None => Seq::empty(),
        }),
{
    let ghost before = devices@;
    devices.push((or_empty(name), or_empty(id)));
    assert(crate::response::pair_views(devices@) =~= crate::response::pair_views(before).push(
        (
            crate::text::text_or_empty(crate::text::name_of(name)),
            crate::text::text_or_empty(crate::text::name_of(id)),
        ),
    ));
}

/// The live device from what libobs gave of it: none where it gave neither
/// text.
pub open spec fn live_device(live: Option<(Option<String>, Option<String>)>) -> Option<(Seq<char>, Seq<char>)> {
    match live {
        Some((name, id)) => if name is None && id is None {
            None
        } else {
            Some(
                (
                    crate::text::text_or_empty(crate::text::name_of(name)),
                    crate::text::text_or_empty(crate::text::name_of(id)),
                ),
            )
        },
        None => None,
    }
}

impl MonitoringDevice {
    /// Whether to set the device: one is wanted, both its texts can be handed
    /// to libobs, and libobs can.
    pub open spec fn may_set(&self, symbol: bool) -> bool {
        symbol && (pair_of(self.wanted) matches Some((name, id)) && !name.contains('\0') && !id.contains('\0'))
    }

    /// Whether to set the device.
    pub fn sets_device(&self, symbol: bool) -> (set: bool)
        ensures
            set == self.may_set(symbol),
            set == (symbol && self.wanted is Some && !(self.wanted->0).0@.contains('\0') && !(
            self.wanted->0).1@.contains('\0')),
    {
        match &self.wanted {
            Some((name, id)) => symbol && !has_nul(name.as_str()) && !has_nul(id.as_str()),
            None => false,
        }
    }
}

/// Takes in what the UI thread did: what setting returned, where
/// `sets_device` said so; the live device and the list of devices, where
/// libobs has them. The live device is read after it was set.
pub fn monitoring_device_on_ui_thread(
    state: &mut MonitoringDevice,
    symbol: bool,
    set_returned: bool,
    live: Option<(Option<String>, Option<String>)>,
    devices: Option<Vec<(String, String)>>,
)
    ensures
        final(state).ran,
        final(state).wanted == old(state).wanted,
        final(state).applied == (if old(state).may_set(symbol) {
            set_returned
        } else {
            old(state).applied
        }),
        pair_of(final(state).current) == (match live_device(live) {
            Some(device) => Some(device),
            None => pair_of(old(state).current),
        }),
        final(state).devices@ == (match devices {
            Some(list) => list@,
            None => old(state).devices@,
        }),
        symbol && old(state).wanted is Some && !(old(state).wanted->0).0@.contains('\0') && !(
        old(state).wanted->0).1@.contains('\0') ==> final(state).applied == set_returned,
        !symbol || old(state).wanted is None ==> final(state).applied == old(state).applied,
        live matches Some((name, id)) ==> (name is Some || id is Some ==> {
            &&& final(state).current is Some
            &&& (final(state).current->0).0@ == (match name {
                Some(text) => text@,
                None => Seq::empty(),
            })
            &&& (final(state).current->0).1@ == (match id {
                Some(text) => text@,
                None => Seq::empty(),
            })
        }),
        live is None || ((live->0).0 is None && (live->0).1 is None) ==> pair_of(final(state).current) == pair_of(
            old(state).current,
        ),
{
    state.ran = true;
    if state.sets_device(symbol) {
        state.applied = set_returned;
    }
    match live {
        Some((name, id)) => {
            if name.is_some() || id.is_some() {
                state.current = Some((or_empty(name), or_empty(id)));
            }
        },
        None => {},
    }
    match devices {
        Some(list) => {
            state.devices = list;
        },
        None => {},
    }
}

/// The live device, as an answer gives it.
pub open spec fn current_fields(current: Option<(Seq<char>, Seq<char>)>) -> Seq<
    (Seq<char>, crate::response::ValueView),
> {
    match current {
        Some((name, id)) => seq![
            ("current_name"@, crate::response::ValueView::Text(name)),
            ("current_id"@, crate::response::ValueView::Text(id)),
        ],
        None => Seq::empty(),
    }
}

/// What an answer says of the live device: its name and its id, each as it
/// is, or nothing where there is none.
pub proof fn what_is_said_of_the_live_device(current: Option<(String, String)>)
    ensures
        current is None ==> current_fields(pair_of(current)).len() == 0,
        current matches Some((name, id)) ==> current_fields(pair_of(current)) == seq![
            ("current_name"@, crate::response::ValueView::Text(name@)),
            ("current_id"@, crate::response::ValueView::Text(id@)),
        ],
{
}

/// The answer to a request: the list of devices, always; so one request both
/// sets and refreshes.
pub fn handle_monitoring_device(state: MonitoringDevice, arrays: bool) -> (response: Response)
    ensures
        response@ == (if !state.ran {
            crate::response::refused("UI-thread task did not run"@)
        } else if !arrays {
            crate::response::refused("obs_data array symbols unavailable"@)
        } else {
            seq![("devices"@, crate::response::ValueView::Pairs("id"@, crate::response::pair_views(state.devices@)))]
                + current_fields(pair_of(state.current)) + seq![
                ("applied"@, crate::response::ValueView::Bool(state.applied)),
                ("ok"@, crate::response::ValueView::Bool(true)),
            ]
        }),
{
    if !state.ran {
        return Response::refuse("UI-thread task did not run");
    }
    if !arrays {
        return Response::refuse("obs_data array symbols unavailable");
    }
    let ghost listed = crate::response::pair_views(state.devices@);
    let ghost live = pair_of(state.current);
    let ghost was_applied = state.applied;
    let applied = state.applied;
    let current = state.current;
    let mut response = Response::new();
    response.set_pair_array("devices", "id", state.devices);
    match &current {
        Some((name, id)) => {
            response.set_string("current_name", name.as_str());
            response.set_string("current_id", id.as_str());
        },
        None => {},
    }
    response.set_bool("applied", applied);
    response.set_bool("ok", true);
    assert(response@ =~= seq![("devices"@, crate::response::ValueView::Pairs("id"@, listed))] + current_fields(live)
        + seq![
        ("applied"@, crate::response::ValueView::Bool(was_applied)),
        ("ok"@, crate::response::ValueView::Bool(true)),
    ]);
    response
}

} // verus!
