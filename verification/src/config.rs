// SPDX-License-Identifier: GPL-2.0-or-later
//! Switches in OBS's own live configuration.
//!
//! OBS holds its settings in memory and writes them out at exit, so an edit
//! of the file would be lost: they are changed in the live object, and saved
//! there and then.

use vstd::prelude::*;

use crate::plan::{Op, Plan, When};
use crate::response::Response;
use crate::text::{has_nul, same_text};

verus! {

/// user.ini, "Make projectors always on top".
pub const PROJECTOR_ON_TOP_SECTION: &'static str = "BasicWindow";

pub const PROJECTOR_ON_TOP_KEY: &'static str = "ProjectorAlwaysOnTop";

/// global.ini, the graphics renderer. OBS reads it at startup only.
pub const RENDERER_SECTION: &'static str = "Video";

pub const RENDERER_KEY: &'static str = "Renderer";

/// user.ini, the switches of the NDI plugin.
pub const NDI_SECTION: &'static str = "NDIPlugin";

pub const NDI_MAIN_OUTPUT_KEY: &'static str = "MainOutputEnabled";

pub const NDI_PREVIEW_OUTPUT_KEY: &'static str = "PreviewOutputEnabled";

/// A switch of the configuration.
#[derive(Clone, Copy, PartialEq, Eq, Structural, Debug)]
pub enum Switch {
    ProjectorOnTop,
    NdiMain,
    NdiPreview,
}

/// Where a switch stands: section and key.
pub open spec fn place_of(switch: Switch) -> (Seq<char>, Seq<char>) {
    match switch {
        Switch::ProjectorOnTop => (PROJECTOR_ON_TOP_SECTION@, PROJECTOR_ON_TOP_KEY@),
        Switch::NdiMain => (NDI_SECTION@, NDI_MAIN_OUTPUT_KEY@),
        Switch::NdiPreview => (NDI_SECTION@, NDI_PREVIEW_OUTPUT_KEY@),
    }
}

impl Switch {
    /// Where the switch stands: section and key.
    pub fn place(self) -> (place: (&'static str, &'static str))
        ensures
            (place.0@, place.1@) == place_of(self),
            self == Switch::ProjectorOnTop ==> place.0@ == "BasicWindow"@ && place.1@ == "ProjectorAlwaysOnTop"@,
            self == Switch::NdiMain ==> place.0@ == "NDIPlugin"@ && place.1@ == "MainOutputEnabled"@,
            self == Switch::NdiPreview ==> place.0@ == "NDIPlugin"@ && place.1@ == "PreviewOutputEnabled"@,
    {
        match self {
            Switch::ProjectorOnTop => (PROJECTOR_ON_TOP_SECTION, PROJECTOR_ON_TOP_KEY),
            Switch::NdiMain => (NDI_SECTION, NDI_MAIN_OUTPUT_KEY),
            Switch::NdiPreview => (NDI_SECTION, NDI_PREVIEW_OUTPUT_KEY),
        }
    }
}

/// A call on a switch.
#[derive(Clone, Copy, PartialEq, Eq, Structural, Debug)]
pub enum ConfigCall {
    /// `obs_frontend_get_user_config`; yes: the configuration.
    GetConfig,
    /// `config_set_bool` of the switch.
    SetBool(Switch, bool),
    /// `config_save_safe`, with the extensions `tmp` and `bak`.
    Save,
    /// `config_get_bool` of the switch; yes: it is on.
    GetBool(Switch),
}

/// What stopped a request.
#[derive(Clone, Copy, PartialEq, Eq, Structural, Debug)]
pub enum ConfigFault {
    SymbolMissing,
    NoConfig,
    SetMissing,
}

/// What libobs offers.
#[derive(Clone, Copy, PartialEq, Eq, Structural, Debug)]
pub struct ConfigSymbols {
    /// The getter of the configuration and that of its values.
    pub read: bool,
    /// The setter of its values.
    pub write: bool,
    /// `config_save_safe`.
    pub save: bool,
}

/// Finds the configuration.
pub open spec fn open_ops(symbols: ConfigSymbols) -> Seq<Op<ConfigCall, ConfigFault>> {
    seq![
        Op::Need { met: symbols.read, fault: ConfigFault::SymbolMissing },
        Op::Do { call: ConfigCall::GetConfig, when: When::Always },
        Op::Require { answer: 1, fault: ConfigFault::NoConfig },
    ]
}

fn open_config(symbols: ConfigSymbols) -> (ops: Vec<Op<ConfigCall, ConfigFault>>)
    ensures
        ops@ == open_ops(symbols),
{
    let ops: Vec<Op<ConfigCall, ConfigFault>> = vec![
        Op::Need { met: symbols.read, fault: ConfigFault::SymbolMissing },
        Op::Do { call: ConfigCall::GetConfig, when: When::Always },
        Op::Require { answer: 1, fault: ConfigFault::NoConfig },
    ];
    assert(ops@ =~= open_ops(symbols));
    ops
}

/// Makes one call, where it is due.
pub open spec fn call_if(due: bool, call: ConfigCall) -> Seq<Op<ConfigCall, ConfigFault>> {
    if due {
        seq![Op::Do { call, when: When::Always }]
    } else {
        Seq::empty()
    }
}

fn push_call(ops: &mut Vec<Op<ConfigCall, ConfigFault>>, due: bool, call: ConfigCall)
    requires
        crate::plan::ordered(old(ops)@),
    ensures
        final(ops)@ == old(ops)@ + call_if(due, call),
        crate::plan::ordered(final(ops)@),
{
    let ghost before = ops@;
    if due {
        ops.push(Op::Do { call, when: When::Always });
    }
    assert(ops@ =~= before + call_if(due, call));
    assert forall|i: int| 0 <= i < ops@.len() implies crate::plan::looks_back(#[trigger] ops@[i], i) by {
        if i < before.len() {
            assert(ops@[i] == before[i]);
        }
    }
}

// ---------------------------------------------------------------------
// NDI outputs
// ---------------------------------------------------------------------

/// The value a request wants, where it wants one.
pub open spec fn wanted(set: Option<bool>) -> bool {
    set == Some(true)
}

/// One call, where it is due.
pub open spec fn one_if(due: bool, call: ConfigCall) -> Seq<ConfigCall> {
    if due {
        seq![call]
    } else {
        Seq::empty()
    }
}

/// What is done with the configuration: what is to be set is set, as far as
/// libobs can; it is saved, if anything was; both switches are read.
pub open spec fn ndi_calls(
    symbols: ConfigSymbols,
    set_main: Option<bool>,
    set_preview: Option<bool>,
) -> Seq<ConfigCall> {
    one_if(symbols.write && set_main is Some, ConfigCall::SetBool(Switch::NdiMain, wanted(set_main))) + one_if(
        symbols.write && set_preview is Some,
        ConfigCall::SetBool(Switch::NdiPreview, wanted(set_preview)),
    ) + one_if(symbols.write && symbols.save && (set_main is Some || set_preview is Some), ConfigCall::Save) + seq![
        ConfigCall::GetBool(Switch::NdiMain),
        ConfigCall::GetBool(Switch::NdiPreview),
    ]
}

pub open spec fn ndi_outputs_ops(symbols: ConfigSymbols, set_main: Option<bool>, set_preview: Option<bool>) -> Seq<
    Op<ConfigCall, ConfigFault>,
> {
    open_ops(symbols) + crate::plan::plain(ndi_calls(symbols, set_main, set_preview))
}

fn value_of(set: Option<bool>) -> (value: bool)
    ensures
        value == wanted(set),
{
    match set {
        Some(value) => value,
        None => false,
    }
}

/// Reads the two switches of the NDI plugin, after setting those that are to
/// be set.
pub fn ndi_outputs(symbols: ConfigSymbols, set_main: Option<bool>, set_preview: Option<bool>) -> (plan: Plan<
    ConfigCall,
    ConfigFault,
>)
    ensures
        plan.fresh(ndi_outputs_ops(symbols, set_main, set_preview)),
{
    let mut ops = open_config(symbols);
    push_call(
        &mut ops,
        symbols.write && set_main.is_some(),
        ConfigCall::SetBool(Switch::NdiMain, value_of(set_main)),
    );
    push_call(
        &mut ops,
        symbols.write && set_preview.is_some(),
        ConfigCall::SetBool(Switch::NdiPreview, value_of(set_preview)),
    );
    push_call(
        &mut ops,
        symbols.write && symbols.save && (set_main.is_some() || set_preview.is_some()),
        ConfigCall::Save,
    );
    push_call(&mut ops, true, ConfigCall::GetBool(Switch::NdiMain));
    push_call(&mut ops, true, ConfigCall::GetBool(Switch::NdiPreview));
    assert(ops@ =~= ndi_outputs_ops(symbols, set_main, set_preview));
    Plan::new(ops)
}

/// What stops a request for the NDI outputs, or for a read of any switch.
pub open spec fn read_fault(symbols: ConfigSymbols, host: spec_fn(int) -> bool) -> Option<ConfigFault> {
    if !symbols.read {
        Some(ConfigFault::SymbolMissing)
    } else if !host(1) {
        Some(ConfigFault::NoConfig)
    } else {
        None
    }
}

/// What is done with the switches, spelled out: a switch is written exactly if
/// a value was given for it and libobs can, with that value; one save follows
/// the writes; every switch that was asked about is read after that.
pub proof fn a_switch_is_written_as_it_was_given(
    symbols: ConfigSymbols,
    set_main: Option<bool>,
    set_preview: Option<bool>,
)
    ensures
        ndi_calls(symbols, set_main, set_preview) == (if symbols.write && set_main is Some {
            seq![ConfigCall::SetBool(Switch::NdiMain, set_main->0)]
        } else {
            Seq::empty()
        }) + (if symbols.write && set_preview is Some {
            seq![ConfigCall::SetBool(Switch::NdiPreview, set_preview->0)]
        } else {
            Seq::empty()
        }) + (if symbols.write && symbols.save && (set_main is Some || set_preview is Some) {
            seq![ConfigCall::Save]
        } else {
            Seq::empty()
        }) + seq![ConfigCall::GetBool(Switch::NdiMain), ConfigCall::GetBool(Switch::NdiPreview)],
        projector_calls(symbols, set_main) == (if set_main is Some {
            seq![ConfigCall::SetBool(Switch::ProjectorOnTop, set_main->0)]
        } else {
            Seq::empty()
        }) + (if set_main is Some && symbols.save {
            seq![ConfigCall::Save]
        } else {
            Seq::empty()
        }) + seq![ConfigCall::GetBool(Switch::ProjectorOnTop)],
{
}

/// A read stops where libobs cannot read, or has no configuration.
pub proof fn what_stops_a_read(symbols: ConfigSymbols, host: spec_fn(int) -> bool)
    ensures
        !symbols.read ==> read_fault(symbols, host) == Some(ConfigFault::SymbolMissing),
        symbols.read && !host(1) ==> read_fault(symbols, host) == Some(ConfigFault::NoConfig),
        symbols.read && host(1) ==> read_fault(symbols, host) is None,
{
}

/// A request for the NDI outputs stops only where the configuration cannot
/// be had; else it makes all the calls of `ndi_calls`, in that order.
pub proof fn what_is_written_is_saved(
    symbols: ConfigSymbols,
    set_main: Option<bool>,
    set_preview: Option<bool>,
    host: spec_fn(int) -> bool,
)
    ensures
        ({
            let course = crate::plan::whole_course(ndi_outputs_ops(symbols, set_main, set_preview), host);
            &&& course.fault == read_fault(symbols, host)
            &&& course.calls.map_values(|call: (ConfigCall, bool)| call.0) == (if !symbols.read {
                Seq::empty()
            } else if !host(1) {
                seq![ConfigCall::GetConfig]
            } else {
                seq![ConfigCall::GetConfig] + ndi_calls(symbols, set_main, set_preview)
            })
        }),
{
    let ops = ndi_outputs_ops(symbols, set_main, set_preview);
    let calls = ndi_calls(symbols, set_main, set_preview);
    assert(ops.skip(3) =~= crate::plan::plain(calls));
    crate::plan::every_step(ops, host);
    crate::plan::course_of_plain_calls(ops, host, 3, calls);
    let course = crate::plan::whole_course(ops, host);
    let made = course.calls.map_values(|call: (ConfigCall, bool)| call.0);
    if !symbols.read {
        assert(made =~= Seq::empty());
    } else if !host(1) {
        assert(made =~= seq![ConfigCall::GetConfig]);
    } else {
        assert(made =~= seq![ConfigCall::GetConfig] + calls);
    }
}

/// The answer to a request for the NDI outputs, with the switches as they
/// stand after it.
pub fn handle_ndi_outputs(queue: bool, ran: bool, main: bool, preview: bool) -> (response: Response)
    ensures
        response@ == (if !queue {
            crate::response::refused("obs_queue_task unavailable"@)
        } else if !ran {
            crate::response::refused("user config unavailable"@)
        } else {
            seq![
                ("ok"@, crate::response::ValueView::Bool(true)),
                ("main"@, crate::response::ValueView::Bool(main)),
                ("preview"@, crate::response::ValueView::Bool(preview)),
            ]
        }),
{
    if !queue {
        return Response::refuse("obs_queue_task unavailable");
    }
    if !ran {
        return Response::refuse("user config unavailable");
    }
    let mut response = Response::accept();
    response.set_bool("main", main);
    response.set_bool("preview", preview);
    assert(response@ =~= seq![
        ("ok"@, crate::response::ValueView::Bool(true)),
        ("main"@, crate::response::ValueView::Bool(main)),
        ("preview"@, crate::response::ValueView::Bool(preview)),
    ]);
    response
}

// ---------------------------------------------------------------------
// Projectors on top
// ---------------------------------------------------------------------

/// What is done with the configuration: the switch is set and the
/// configuration saved, where the switch is to be set; the switch is read.
pub open spec fn projector_calls(symbols: ConfigSymbols, set: Option<bool>) -> Seq<ConfigCall> {
    one_if(set is Some, ConfigCall::SetBool(Switch::ProjectorOnTop, wanted(set))) + one_if(
        set is Some && symbols.save,
        ConfigCall::Save,
    ) + seq![ConfigCall::GetBool(Switch::ProjectorOnTop)]
}

/// A set that libobs cannot make stops the request.
pub open spec fn projector_ops(symbols: ConfigSymbols, set: Option<bool>) -> Seq<Op<ConfigCall, ConfigFault>> {
    open_ops(symbols) + seq![
        Op::Need { met: set is None || symbols.write, fault: ConfigFault::SetMissing },
    ] + crate::plan::plain(projector_calls(symbols, set))
}

/// Reads whether projectors stay on top, after setting it where it is to be
/// set.
pub fn projector_on_top(symbols: ConfigSymbols, set: Option<bool>) -> (plan: Plan<ConfigCall, ConfigFault>)
    ensures
        plan.fresh(projector_ops(symbols, set)),
{
    let mut ops = open_config(symbols);
    ops.push(Op::Need { met: set.is_none() || symbols.write, fault: ConfigFault::SetMissing });
    push_call(&mut ops, set.is_some(), ConfigCall::SetBool(Switch::ProjectorOnTop, value_of(set)));
    push_call(&mut ops, set.is_some() && symbols.save, ConfigCall::Save);
    push_call(&mut ops, true, ConfigCall::GetBool(Switch::ProjectorOnTop));
    assert(ops@ =~= projector_ops(symbols, set));
    Plan::new(ops)
}

/// A request for the projectors' switch stops where the configuration cannot
/// be had, or where the switch is to be set and libobs cannot. Else it makes
/// all the calls of `projector_calls`, in that order.
pub proof fn a_set_switch_is_saved(symbols: ConfigSymbols, set: Option<bool>, host: spec_fn(int) -> bool)
    ensures
        ({
            let course = crate::plan::whole_course(projector_ops(symbols, set), host);
            &&& course.fault == (match read_fault(symbols, host) {
                Some(fault) => Some(fault),
                None => if set is Some && !symbols.write {
                    Some(ConfigFault::SetMissing)
                } else {
                    None
                },
            })
            &&& course.calls.map_values(|call: (ConfigCall, bool)| call.0) == (if !symbols.read {
                Seq::empty()
            } else if course.fault is Some {
                seq![ConfigCall::GetConfig]
            } else {
                seq![ConfigCall::GetConfig] + projector_calls(symbols, set)
            })
        }),
{
    let ops = projector_ops(symbols, set);
    let calls = projector_calls(symbols, set);
    assert(ops.skip(4) =~= crate::plan::plain(calls));
    crate::plan::every_step(ops, host);
    crate::plan::course_of_plain_calls(ops, host, 4, calls);
    let course = crate::plan::whole_course(ops, host);
    let made = course.calls.map_values(|call: (ConfigCall, bool)| call.0);
    if !symbols.read {
        assert(made =~= Seq::empty());
    } else if course.fault is Some {
        assert(made =~= seq![ConfigCall::GetConfig]);
    } else {
        assert(made =~= seq![ConfigCall::GetConfig] + calls);
    }
}

/// The answer to a request for the projectors' switch, as it stands after
/// it.
pub fn handle_projector_on_top(queue: bool, ran: bool, enabled: bool) -> (response: Response)
    ensures
        response@ == (if !queue {
            crate::response::refused("obs_queue_task unavailable"@)
        } else if !ran {
            crate::response::refused("user config unavailable"@)
        } else {
            seq![
                ("ok"@, crate::response::ValueView::Bool(true)),
                ("enabled"@, crate::response::ValueView::Bool(enabled)),
            ]
        }),
{
    if !queue {
        return Response::refuse("obs_queue_task unavailable");
    }
    if !ran {
        return Response::refuse("user config unavailable");
    }
    let mut response = Response::accept();
    response.set_bool("enabled", enabled);
    assert(response@ =~= seq![
        ("ok"@, crate::response::ValueView::Bool(true)),
        ("enabled"@, crate::response::ValueView::Bool(enabled)),
    ]);
    response
}

// ---------------------------------------------------------------------
// The renderer
// ---------------------------------------------------------------------

/// The renderer a request asks for; an empty text asks for none.
pub open spec fn asked_renderer(renderer: Option<Seq<char>>) -> Option<Seq<char>> {
    match renderer {
        Some(text) => if text.len() == 0 {
            None
        } else {
            Some(text)
        },
        None => None,
    }
}

/// The renderer a request asks for.
pub fn wanted_renderer(renderer: Option<String>) -> (wanted: Option<String>)
    ensures
        crate::text::name_of(wanted) == asked_renderer(crate::text::name_of(renderer)),
        wanted is Some <==> (renderer is Some && renderer->0@.len() > 0),
        wanted matches Some(text) ==> text@ == renderer->0@,
{
    match renderer {
        Some(text) => if text.as_str().is_empty() {
            None
        } else {
            Some(text)
        },
        None => None,
    }
}

/// Whether a renderer is asked for that is not the present one.
pub fn changes_renderer(wanted: &Option<String>, before: &str) -> (changes: bool)
    ensures
        changes == (crate::text::name_of(*wanted) matches Some(text) && text != before@),
        changes == (*wanted matches Some(text) && text@ != before@),
{
    match wanted {
        Some(text) => !same_text(text.as_str(), before),
        None => false,
    }
}

/// A call on the renderer.
#[derive(Clone, Copy, Debug)]
pub enum RendererCall<'a> {
    /// `obs_frontend_get_app_config`; yes: the configuration.
    GetConfig,
    /// `config_get_string`; yes: it is not to be changed
    /// (`changes_renderer`).
    Read,
    /// `config_set_string`, of this text.
    SetText(&'a str),
    /// `config_save_safe`, with the extensions `tmp` and `bak`.
    Save,
    /// `config_get_string`, as it stands now.
    ReadAgain,
}

/// Whether the renderer can be set: libobs can, and the text can be handed to
/// it.
pub open spec fn settable(symbols: ConfigSymbols, text: &str) -> bool {
    symbols.write && !text@.contains('\0')
}

/// Sets the renderer and saves, where the present one was read to be
/// another; stops where it cannot be set.
pub open spec fn write_renderer_ops<'a>(symbols: ConfigSymbols, text: &'a str) -> Seq<
    Op<RendererCall<'a>, ConfigFault>,
> {
    if !settable(symbols, text) {
        seq![Op::Require { answer: 3, fault: ConfigFault::SetMissing }]
    } else if symbols.save {
        seq![
            Op::Do { call: RendererCall::SetText(text), when: When::Unless(3) },
            Op::Do { call: RendererCall::Save, when: When::Unless(3) },
        ]
    } else {
        seq![Op::Do { call: RendererCall::SetText(text), when: When::Unless(3) }]
    }
}

/// Reads the renderer; where another is asked for, sets it and saves, or
/// stops where it cannot be set; reads it again.
pub open spec fn renderer_ops<'a>(symbols: ConfigSymbols, wanted: Option<&'a str>) -> Seq<
    Op<RendererCall<'a>, ConfigFault>,
> {
    seq![
        Op::Need { met: symbols.read, fault: ConfigFault::SymbolMissing },
        Op::Do { call: RendererCall::GetConfig, when: When::Always },
        Op::Require { answer: 1, fault: ConfigFault::NoConfig },
        Op::Do { call: RendererCall::Read, when: When::Always },
    ] + (match wanted {
        Some(text) => write_renderer_ops(symbols, text),
        None => Seq::empty(),
    }) + seq![Op::Do { call: RendererCall::ReadAgain, when: When::Always }]
}

/// Reads the renderer, after setting it where another is asked for.
pub fn renderer<'a>(symbols: ConfigSymbols, wanted: Option<&'a str>) -> (plan: Plan<RendererCall<'a>, ConfigFault>)
    ensures
        plan.fresh(renderer_ops(symbols, wanted)),
{
    let mut ops: Vec<Op<RendererCall<'a>, ConfigFault>> = vec![
        Op::Need { met: symbols.read, fault: ConfigFault::SymbolMissing },
        Op::Do { call: RendererCall::GetConfig, when: When::Always },
        Op::Require { answer: 1, fault: ConfigFault::NoConfig },
        Op::Do { call: RendererCall::Read, when: When::Always },
    ];
    match wanted {
        Some(text) => if !symbols.write || has_nul(text) {
            ops.push(Op::Require { answer: 3, fault: ConfigFault::SetMissing });
        } else {
            ops.push(Op::Do { call: RendererCall::SetText(text), when: When::Unless(3) });
            if symbols.save {
                ops.push(Op::Do { call: RendererCall::Save, when: When::Unless(3) });
            }
        },
        None => {},
    }
    ops.push(Op::Do { call: RendererCall::ReadAgain, when: When::Always });
    assert(ops@ =~= renderer_ops(symbols, wanted));
    Plan::new(ops)
}

/// The calls of a request for the renderer that stops at nothing: it writes
/// the text that was asked for, and saves it if libobs can, where `changes`.
pub open spec fn renderer_calls<'a>(symbols: ConfigSymbols, wanted: Option<&'a str>, changes: bool) -> Seq<
    RendererCall<'a>,
> {
    seq![RendererCall::GetConfig, RendererCall::Read] + (match wanted {
        Some(text) => if !changes {
            Seq::empty()
        } else if symbols.save {
            seq![RendererCall::SetText(text), RendererCall::Save]
        } else {
            seq![RendererCall::SetText(text)]
        },
        None => Seq::empty(),
    }) + seq![RendererCall::ReadAgain]
}

/// What is done with the renderer, spelled out: it is written exactly if
/// another one is asked for, with the text that was asked for, and saved; it
/// is read again in any case. It can be written where libobs can, and where
/// the text holds no NUL.
pub proof fn the_renderer_is_written_as_it_was_given<'a>(symbols: ConfigSymbols, wanted: Option<&'a str>, changes: bool)
    ensures
        wanted is None || !changes ==> renderer_calls(symbols, wanted, changes) == seq![
            RendererCall::GetConfig,
            RendererCall::Read,
            RendererCall::ReadAgain,
        ],
        wanted is Some && changes && symbols.save ==> renderer_calls(symbols, wanted, changes) == seq![
            RendererCall::GetConfig,
            RendererCall::Read,
            RendererCall::SetText(wanted->0),
            RendererCall::Save,
            RendererCall::ReadAgain,
        ],
        wanted is Some && changes && !symbols.save ==> renderer_calls(symbols, wanted, changes) == seq![
            RendererCall::GetConfig,
            RendererCall::Read,
            RendererCall::SetText(wanted->0),
            RendererCall::ReadAgain,
        ],
        wanted matches Some(text) ==> (settable(symbols, text) <==> symbols.write && !text@.contains('\0')),
{
    let calls = renderer_calls(symbols, wanted, changes);
    if wanted is None || !changes {
        assert(calls =~= seq![RendererCall::GetConfig, RendererCall::Read, RendererCall::ReadAgain]);
    } else if symbols.save {
        assert(calls =~= seq![
            RendererCall::GetConfig,
            RendererCall::Read,
            RendererCall::SetText(wanted->0),
            RendererCall::Save,
            RendererCall::ReadAgain,
        ]);
    } else {
        assert(calls =~= seq![
            RendererCall::GetConfig,
            RendererCall::Read,
            RendererCall::SetText(wanted->0),
            RendererCall::ReadAgain,
        ]);
    }
}

/// A request for the renderer stops where the configuration cannot be had, or
/// where the renderer is to be changed and cannot be. Else it makes all the
/// calls of `renderer_calls`, in that order: to ask for the renderer that is
/// set writes nothing.
pub proof fn an_unchanged_renderer_is_not_written<'a>(
    symbols: ConfigSymbols,
    wanted: Option<&'a str>,
    host: spec_fn(int) -> bool,
)
    ensures
        ({
            let course = crate::plan::whole_course(renderer_ops(symbols, wanted), host);
            let refused = wanted matches Some(text) && !host(3) && !settable(symbols, text);
            &&& course.fault == (match read_fault(symbols, host) {
                Some(fault) => Some(fault),
                None => if refused {
                    Some(ConfigFault::SetMissing)
                } else {
                    None
                },
            })
            &&& course.calls.map_values(|call: (RendererCall<'a>, bool)| call.0) == (if !symbols.read {
                Seq::empty()
            } else if !host(1) {
                seq![RendererCall::GetConfig]
            } else if refused {
                seq![RendererCall::GetConfig, RendererCall::Read]
            } else {
                renderer_calls(symbols, wanted, !host(3))
            })
        }),
{
    let ops = renderer_ops(symbols, wanted);
    let course = crate::plan::whole_course(ops, host);
    let made = course.calls.map_values(|call: (RendererCall<'a>, bool)| call.0);
    crate::plan::every_step(ops, host);
    if !symbols.read {
        assert(made =~= Seq::empty());
    } else if !host(1) {
        assert(made =~= seq![RendererCall::GetConfig]);
    } else if course.fault is Some {
        assert(made =~= seq![RendererCall::GetConfig, RendererCall::Read]);
    } else {
        assert(made =~= renderer_calls(symbols, wanted, !host(3)));
    }
}

/// The answer to a request for the renderer, as it stands after it. Without
/// a change there is no reason to restart OBS.
pub fn handle_renderer(queue: bool, ran: bool, value: &str, changed: bool) -> (response: Response)
    ensures
        response@ == (if !queue {
            crate::response::refused("obs_queue_task unavailable"@)
        } else if !ran {
            crate::response::refused("app config unavailable"@)
        } else {
            seq![
                ("ok"@, crate::response::ValueView::Bool(true)),
                ("renderer"@, crate::response::ValueView::Text(value@)),
                ("changed"@, crate::response::ValueView::Bool(changed)),
            ]
        }),
{
    if !queue {
        return Response::refuse("obs_queue_task unavailable");
    }
    if !ran {
        return Response::refuse("app config unavailable");
    }
    let mut response = Response::accept();
    response.set_string("renderer", value);
    response.set_bool("changed", changed);
    assert(response@ =~= seq![
        ("ok"@, crate::response::ValueView::Bool(true)),
        ("renderer"@, crate::response::ValueView::Text(value@)),
        ("changed"@, crate::response::ValueView::Bool(changed)),
    ]);
    response
}

} // verus!
