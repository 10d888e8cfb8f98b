use vstd::prelude::*;
use vstd::string::StringExecFns;
use crate::monitor::{
    empty_info_builder, info_build_result, info_builder_of, info_built, mode_built, mode_builder_complete,
    opt_string_view, AdaptiveSyncState, MonitorInformation, MonitorInformationBuilder,
    MonitorInformationBuilderView, MonitorInformationView, MonitorMode, MonitorModeBuilder,
    OutputTransform,
};

verus! {

/// One event of the registry, of the output-management protocol, of one of
/// its heads or of one of its modes. Head and mode events carry no object:
/// they concern the head or mode that was announced last.
pub enum OutputEvent {
    Global { name: u32, interface: String, version: u32 },
    GlobalRemove { name: u32 },
    Head { head: u64 },
    Done { serial: u32 },
    ManagerFinished,
    Name { name: String },
    Description { description: String },
    PhysicalSize { width: i32, height: i32 },
    Mode { mode: u64 },
    CurrentMode { mode: u64 },
    Enabled { enabled: i32 },
    Position { x: i32, y: i32 },
    /// `None` stands for a transform value that the protocol does not know.
    Transform { transform: Option<OutputTransform> },
    /// The IEEE-754 bits of the scale factor.
    Scale { scale: u64 },
    /// The head `head` is gone: its monitor was detached.
    HeadFinished { head: u64 },
    Make { make: String },
    Model { model: String },
    SerialNumber { serial_number: String },
    /// `None` stands for a state value that the protocol does not know.
    AdaptiveSync { state: Option<AdaptiveSyncState> },
    ModeSize { width: i32, height: i32 },
    ModeRefresh { refresh: i32 },
    ModePreferred,
    ModeFinished,
}

/// The protocol object that announced that it is gone.
#[derive(Debug, Clone, Copy, PartialEq, Eq, Structural)]
pub enum FinishedObject {
    OutputManager,
    Head,
    Mode,
}

impl FinishedObject {
    /// The line that is reported when the object is gone.
    pub fn message(&self) -> (m: &'static str)
        ensures
            m@ == match *self {
                FinishedObject::OutputManager => "=========================================================\nFinished"@,
                FinishedObject::Head => "===================================\nFinished"@,
                FinishedObject::Mode => "============================================\nFinished"@,
            },
    {
        match self {
            FinishedObject::OutputManager => {
                "=========================================================\nFinished"
            },
            FinishedObject::Head => "===================================\nFinished",
            FinishedObject::Mode => "============================================\nFinished",
        }
    }
}

/// What the event loop has to do after an event.
pub enum OutputAction {
    Nothing,
    /// Bind the output manager global `name` at `version`.
    BindOutputManager { name: u32, version: u32 },
    /// Hand the whole current configuration to the listeners.
    Publish { configuration: Vec<MonitorInformation> },
    /// Report that a protocol object is gone.
    Report { object: FinishedObject },
}

/// The mathematical value of an [`OutputAction`].
pub enum OutputActionView {
    Nothing,
    BindOutputManager { name: u32, version: u32 },
    Publish { configuration: Seq<MonitorInformationView> },
    Report { object: FinishedObject },
}

pub open spec fn configuration_view(c: Seq<MonitorInformation>) -> Seq<MonitorInformationView> {
    c.map_values(|m: MonitorInformation| m@)
}

impl View for OutputAction {
    type V = OutputActionView;

    open spec fn view(&self) -> OutputActionView {
        match self {
            OutputAction::Nothing => OutputActionView::Nothing,
            OutputAction::BindOutputManager { name, version } => {
                OutputActionView::BindOutputManager { name: *name, version: *version }
            },
            OutputAction::Publish { configuration } => {
                OutputActionView::Publish { configuration: configuration_view(configuration@) }
            },
            OutputAction::Report { object } => OutputActionView::Report { object: *object },
        }
    }
}

/// What the event loop knows about the outputs: the head and the mode whose
/// properties are being announced, and every head completed so far.
pub struct ScreenManagerState {
    pub running: bool,
    pub output_manager_bound: bool,
    pub current_head: Option<MonitorInformationBuilder>,
    pub current_mode: Option<MonitorModeBuilder>,
    pub current_configuration: Vec<MonitorInformation>,
}

/// The mathematical value of a [`ScreenManagerState`].
pub struct ScreenManagerStateView {
    pub running: bool,
    pub output_manager_bound: bool,
    pub current_head: Option<MonitorInformationBuilderView>,
    pub current_mode: Option<MonitorModeBuilder>,
    pub current_configuration: Seq<MonitorInformationView>,
}

impl View for ScreenManagerState {
    type V = ScreenManagerStateView;

    open spec fn view(&self) -> ScreenManagerStateView {
        ScreenManagerStateView {
            running: self.running,
            output_manager_bound: self.output_manager_bound,
            current_head: match self.current_head {
                Some(b) => Some(b@),
                None => None,
            },
            current_mode: self.current_mode,
            current_configuration: configuration_view(self.current_configuration@),
        }
    }
}

/// `i` is the first position of `c` that holds the head `id`.
pub open spec fn is_first_index(c: Seq<MonitorInformationView>, id: u64, i: int) -> bool {
    &&& 0 <= i < c.len()
    &&& c[i].id == id
    &&& forall|j: int| 0 <= j < i ==> c[j].id != id
}

/// Where `c` holds the head `id`, if anywhere.
pub open spec fn index_of_head(c: Seq<MonitorInformationView>, id: u64) -> Option<int> {
    if exists|i: int| is_first_index(c, id, i) {
        Some(choose|i: int| is_first_index(c, id, i))
    } else {
        None
    }
}

/// `c` with `m` stored under its id: in place of an entry with that id,
/// else at the end.
pub open spec fn configuration_insert(
    c: Seq<MonitorInformationView>,
    m: MonitorInformationView,
) -> Seq<MonitorInformationView> {
    match index_of_head(c, m.id) {
        Some(i) => c.update(i, m),
        None => c.push(m),
    }
}

/// No two entries of `c` describe the same head.
pub open spec fn heads_unique(c: Seq<MonitorInformationView>) -> bool {
    forall|i: int, j: int| 0 <= i < c.len() && 0 <= j < c.len() && i != j ==> c[i].id != c[j].id
}

pub open spec fn add_mode_to(
    b: MonitorInformationBuilderView,
    mode: MonitorMode,
) -> MonitorInformationBuilderView {
    MonitorInformationBuilderView {
        modes: Some(
            match b.modes {
                Some(m) => m.push(mode),
                None => seq![mode],
            },
        ),
        ..b
    }
}

/// Ends the mode being announced: a complete mode joins the head being
/// announced, if there is one; otherwise the mode is dropped.
pub open spec fn finish_mode_spec(s: ScreenManagerStateView) -> ScreenManagerStateView {
    match s.current_mode {
        None => s,
        Some(mb) => {
            if mode_builder_complete(mb) && s.current_head is Some {
                ScreenManagerStateView {
                    current_mode: None,
                    current_head: Some(add_mode_to(s.current_head->0, mode_built(mb))),
                    ..s
                }
            } else {
                ScreenManagerStateView { current_mode: None, ..s }
            }
        },
    }
}

/// Ends the head being announced (and first its pending mode): a complete
/// head is stored in the configuration under its id.
pub open spec fn finish_head_spec(s: ScreenManagerStateView) -> ScreenManagerStateView {
    let s1 = finish_mode_spec(s);
    match s1.current_head {
        None => s1,
        Some(hb) => match info_build_result(hb) {
            Some(m) => ScreenManagerStateView {
                current_head: None,
                current_configuration: configuration_insert(s1.current_configuration, m),
                ..s1
            },
            None => ScreenManagerStateView { current_head: None, ..s1 },
        },
    }
}

/// Starts announcing head `id`: a pending head is finished first, and the
/// new builder starts from what the configuration already knows of `id`.
pub open spec fn create_new_head_spec(s: ScreenManagerStateView, id: u64) -> ScreenManagerStateView {
    let s1 = if s.current_head is Some {
        finish_head_spec(s)
    } else {
        s
    };
    let start = match index_of_head(s1.current_configuration, id) {
        Some(i) => info_builder_of(s1.current_configuration[i]),
        None => empty_info_builder(),
    };
    ScreenManagerStateView {
        current_head: Some(MonitorInformationBuilderView { id: Some(id), ..start }),
        ..s1
    }
}

/// Starts announcing mode `id`; a pending mode is finished first.
pub open spec fn create_new_mode_spec(s: ScreenManagerStateView, id: u64) -> ScreenManagerStateView {
    let s1 = if s.current_mode is Some {
        finish_mode_spec(s)
    } else {
        s
    };
    ScreenManagerStateView {
        current_mode: Some(
            MonitorModeBuilder { id: Some(id), size: None, refresh: None, preferred: None },
        ),
        ..s1
    }
}

/// `c` without the entries for head `id`.
pub open spec fn remove_head(c: Seq<MonitorInformationView>, id: u64) -> Seq<MonitorInformationView>
    decreases c.len(),
{
    if c.len() == 0 {
        c
    } else {
        let r = remove_head(c.drop_last(), id);
        if c.last().id == id {
            r
        } else {
            r.push(c.last())
        }
    }
}

/// Forgets head `id`, which is gone: it leaves the configuration, and if it
/// is the head being announced, that head and its pending mode are dropped.
pub open spec fn drop_head_spec(s: ScreenManagerStateView, id: u64) -> ScreenManagerStateView {
    let pending = s.current_head is Some && s.current_head->0.id == Some(id);
    ScreenManagerStateView {
        current_configuration: remove_head(s.current_configuration, id),
        current_head: if pending {
            None
        } else {
            s.current_head
        },
        current_mode: if pending {
            None
        } else {
            s.current_mode
        },
        ..s
    }
}

/// Some entry of `c` describes head `id`.
pub open spec fn stores_head(c: Seq<MonitorInformationView>, id: u64) -> bool {
    exists|j: int| 0 <= j < c.len() && c[j].id == id
}

/// The state after a property of the head being announced changed; with no
/// head being announced, nothing changes.
pub open spec fn update_head(
    s: ScreenManagerStateView,
    b: MonitorInformationBuilderView,
) -> ScreenManagerStateView {
    if s.current_head is Some {
        ScreenManagerStateView { current_head: Some(b), ..s }
    } else {
        s
    }
}

pub open spec fn update_mode(s: ScreenManagerStateView, b: MonitorModeBuilder) -> ScreenManagerStateView {
    if s.current_mode is Some {
        ScreenManagerStateView { current_mode: Some(b), ..s }
    } else {
        s
    }
}

/// The name under which the registry announces the output manager.
pub open spec fn output_manager_interface() -> Seq<char> {
    seq!['z', 'w', 'l', 'r', '_', 'o', 'u', 't', 'p', 'u', 't', '_', 'm', 'a', 'n', 'a', 'g', 'e', 'r', '_', 'v', '1']
}

/// How the state answers one event, and what the loop has to do.
pub open spec fn step(s: ScreenManagerStateView, e: OutputEvent) -> (
    ScreenManagerStateView,
    OutputActionView,
) {
    let h = s.current_head->0;
    let m = s.current_mode->0;
    match e {
        OutputEvent::Global { name, interface, version } => {
            if interface@ == output_manager_interface() {
                (
                    ScreenManagerStateView { output_manager_bound: true, ..s },
                    OutputActionView::BindOutputManager { name, version },
                )
            } else {
                (s, OutputActionView::Nothing)
            }
        },
        OutputEvent::GlobalRemove { .. } => (s, OutputActionView::Nothing),
        OutputEvent::Head { head } => (create_new_head_spec(s, head), OutputActionView::Nothing),
        OutputEvent::Done { .. } => {
            let s1 = finish_head_spec(s);
            (s1, OutputActionView::Publish { configuration: s1.current_configuration })
        },
        OutputEvent::ManagerFinished => (
            s,
            OutputActionView::Report { object: FinishedObject::OutputManager },
        ),
        OutputEvent::Name { name } => (
            update_head(s, MonitorInformationBuilderView { name: Some(name@), ..h }),
            OutputActionView::Nothing,
        ),
        OutputEvent::Description { description } => (
            update_head(s, MonitorInformationBuilderView { description: Some(description@), ..h }),
            OutputActionView::Nothing,
        ),
        OutputEvent::PhysicalSize { width, height } => (
            update_head(s, MonitorInformationBuilderView { size: Some((width, height)), ..h }),
            OutputActionView::Nothing,
        ),
        OutputEvent::Mode { mode } => (create_new_mode_spec(s, mode), OutputActionView::Nothing),
        OutputEvent::CurrentMode { mode } => (
            update_head(s, MonitorInformationBuilderView { current_mode: Some(mode), ..h }),
            OutputActionView::Nothing,
        ),
        OutputEvent::Enabled { enabled } => (
            update_head(s, MonitorInformationBuilderView { enabled: Some(enabled), ..h }),
            OutputActionView::Nothing,
        ),
        OutputEvent::Position { x, y } => (
            update_head(s, MonitorInformationBuilderView { position: Some((x, y)), ..h }),
            OutputActionView::Nothing,
        ),
        OutputEvent::Transform { transform } => match transform {
            Some(t) => (
                update_head(s, MonitorInformationBuilderView { transform: Some(t), ..h }),
                OutputActionView::Nothing,
            ),
            None => (s, OutputActionView::Nothing),
        },
        OutputEvent::Scale { scale } => (
            update_head(s, MonitorInformationBuilderView { scale: Some(scale), ..h }),
            OutputActionView::Nothing,
        ),
        OutputEvent::HeadFinished { head } => (
            drop_head_spec(s, head),
            OutputActionView::Report { object: FinishedObject::Head },
        ),
        OutputEvent::Make { make } => (
            update_head(s, MonitorInformationBuilderView { make: Some(make@), ..h }),
            OutputActionView::Nothing,
        ),
        OutputEvent::Model { model } => (
            update_head(s, MonitorInformationBuilderView { model: Some(model@), ..h }),
            OutputActionView::Nothing,
        ),
        OutputEvent::SerialNumber { serial_number } => (
            update_head(s, MonitorInformationBuilderView { serial: Some(Some(serial_number@)), ..h }),
            OutputActionView::Nothing,
        ),
        OutputEvent::AdaptiveSync { state } => match state {
            Some(a) => (
                update_head(s, MonitorInformationBuilderView { adaptive_sync: Some(Some(a)), ..h }),
                OutputActionView::Nothing,
            ),
            None => (s, OutputActionView::Nothing),
        },
        OutputEvent::ModeSize { width, height } => (
            update_mode(s, MonitorModeBuilder { size: Some((width, height)), ..m }),
            OutputActionView::Nothing,
        ),
        OutputEvent::ModeRefresh { refresh } => (
            update_mode(s, MonitorModeBuilder { refresh: Some(refresh), ..m }),
            OutputActionView::Nothing,
        ),
        OutputEvent::ModePreferred => (
            update_mode(s, MonitorModeBuilder { preferred: Some(true), ..m }),
            OutputActionView::Nothing,
        ),
        OutputEvent::ModeFinished => (s, OutputActionView::Report { object: FinishedObject::Mode }),
    }
}


/// Where `configuration` holds the head `id`, if anywhere.
pub fn find_head(configuration: &Vec<MonitorInformation>, id: u64) -> (r: Option<usize>)
    ensures
        match r {
            Some(i) => index_of_head(configuration_view(configuration@), id) == Some(i as int),
            None => index_of_head(configuration_view(configuration@), id) is None,
        },
{
    let ghost c = configuration_view(configuration@);
    for i in 0..configuration.len()
        invariant
            c == configuration_view(configuration@),
            forall|j: int| 0 <= j < i ==> c[j].id != id,
    {
        if configuration[i].id == id {
            assert(is_first_index(c, id, i as int));
            let ghost k = choose|k: int| is_first_index(c, id, k);
            assert(k == i) by {
                if k < i {
                    assert(c[k].id != id);
                } else if i < k {
                    assert(c[i as int].id != id);
                }
            }
            return Some(i);
        }
    }
    assert(!exists|k: int| is_first_index(c, id, k));
    None
}

/// Stores `m` under its id: in place of an entry with that id, else at the end.
pub fn insert_head(configuration: &mut Vec<MonitorInformation>, m: MonitorInformation)
    ensures
        configuration_view(final(configuration)@) == configuration_insert(
            configuration_view(old(configuration)@),
            m@,
        ),
{
    let ghost mv = m@;
    match find_head(configuration, m.id) {
        Some(i) => {
            configuration.set(i, m);
            assert(configuration_view(configuration@) =~= configuration_view(
                old(configuration)@,
            ).update(i as int, mv));
        },
        None => {
            configuration.push(m);
            assert(configuration_view(configuration@) =~= configuration_view(
                old(configuration)@,
            ).push(mv));
        },
    }
}

impl ScreenManagerState {
    /// The state before any event: nothing known, nothing pending.
    pub fn new() -> (s: Self)
        ensures
            s@.running,
            !s@.output_manager_bound,
            s@.current_head is None,
            s@.current_mode is None,
            s@.current_configuration == Seq::<MonitorInformationView>::empty(),
    {
        let s = ScreenManagerState {
            running: true,
            output_manager_bound: false,
            current_head: None,
            current_mode: None,
            current_configuration: Vec::new(),
        };
        assert(configuration_view(s.current_configuration@) =~= Seq::empty());
        s
    }

    /// Ends the mode being announced.
    pub fn finish_mode(&mut self)
        ensures
            final(self)@ == finish_mode_spec(old(self)@),
    {
        match self.current_mode.take() {
            None => {},
            Some(mb) => {
                match mb.build() {
                    Ok(mode) => {
                        match &mut self.current_head {
                            Some(head) => {
                                head.add_mode(mode);
                            },
                            None => {},
                        }
                    },
                    Err(_) => {},
                }
            },
        }
    }

    /// Ends the head being announced, and its pending mode before it.
    pub fn finish_head(&mut self)
        ensures
            final(self)@ == finish_head_spec(old(self)@),
    {
        self.finish_mode();
        match self.current_head.take() {
            None => {},
            Some(hb) => {
                match hb.build() {
                    Ok(h) => {
                        insert_head(&mut self.current_configuration, h);
                    },
                    Err(_) => {},
                }
            },
        }
    }

    /// Starts announcing head `id`.
    pub fn create_new_head(&mut self, id: u64)
        ensures
            final(self)@ == create_new_head_spec(old(self)@, id),
    {
        if self.current_head.is_some() {
            self.finish_head();
        }
        let mut builder = match find_head(&self.current_configuration, id) {
            Some(i) => MonitorInformationBuilder::from_value(&self.current_configuration[i]),
            None => MonitorInformationBuilder::default(),
        };
        builder.id(id);
        self.current_head = Some(builder);
    }

    /// Starts announcing mode `id`.
    pub fn create_new_mode(&mut self, id: u64)
        ensures
            final(self)@ == create_new_mode_spec(old(self)@, id),
    {
        if self.current_mode.is_some() {
            self.finish_mode();
        }
        let mut builder = MonitorModeBuilder::default();
        builder.id(id);
        self.current_mode = Some(builder);
    }
}


/// A copy of `configuration`.
pub fn clone_configuration(configuration: &Vec<MonitorInformation>) -> (res: Vec<MonitorInformation>)
    ensures
        configuration_view(res@) == configuration_view(configuration@),
{
    let mut res: Vec<MonitorInformation> = Vec::new();
    for i in 0..configuration.len()
        invariant
            res@.len() == i,
            configuration_view(res@) == configuration_view(configuration@).take(i as int),
    {
        let m = configuration[i].clone();
        let ghost before = res@;
        res.push(m);
        assert forall|k: int| 0 <= k < i + 1 implies #[trigger] configuration_view(res@)[k]
            == configuration_view(configuration@)[k] by {
            if k < i {
                assert(res@[k] == before[k]);
                assert(configuration_view(before)[k] == configuration_view(configuration@).take(
                    i as int,
                )[k]);
            }
        }
        assert(configuration_view(res@) =~= configuration_view(configuration@).take(i + 1));
    }
    assert(configuration_view(configuration@).take(configuration@.len() as int)
        =~= configuration_view(configuration@));
    res
}

/// Whether `interface` names the output manager.
pub fn is_output_manager_interface(interface: &String) -> (r: bool)
    ensures
        r == (interface@ == output_manager_interface()),
{
    let expected = String::from_str("zwlr_output_manager_v1");
    proof {
        reveal_strlit("zwlr_output_manager_v1");
        assert(expected@ =~= output_manager_interface());
    }
    *interface == expected
}

/// Removes the entries for head `id`.
pub fn remove_head_entries(configuration: &mut Vec<MonitorInformation>, id: u64)
    ensures
        configuration_view(final(configuration)@) == remove_head(
            configuration_view(old(configuration)@),
            id,
        ),
{
    let ghost c = configuration_view(configuration@);
    let mut kept: Vec<MonitorInformation> = Vec::new();
    assert(c.take(0) =~= Seq::<MonitorInformationView>::empty());
    assert(configuration_view(kept@) =~= Seq::<MonitorInformationView>::empty());
    for i in 0..configuration.len()
        invariant
            c == configuration_view(configuration@),
            configuration_view(kept@) == remove_head(c.take(i as int), id),
    {
        assert(c.take(i + 1).drop_last() =~= c.take(i as int));
        assert(c.take(i + 1).last() == configuration@[i as int]@);
        if configuration[i].id != id {
            let m = configuration[i].clone();
            let ghost before = kept@;
            kept.push(m);
            assert(configuration_view(kept@) =~= configuration_view(before).push(m@));
        }
    }
    assert(c.take(c.len() as int) =~= c);
    *configuration = kept;
}

impl ScreenManagerState {
    /// Forgets head `id`, which is gone.
    pub fn drop_head(&mut self, id: u64)
        ensures
            final(self)@ == drop_head_spec(old(self)@, id),
    {
        remove_head_entries(&mut self.current_configuration, id);
        let pending = match &self.current_head {
            Some(b) => b.id == Some(id),
            None => false,
        };
        if pending {
            self.current_head = None;
            self.current_mode = None;
        }
    }

    /// Answers one event: updates the state and says what the loop has to do.
    pub fn handle_event(&mut self, event: OutputEvent) -> (action: OutputAction)
        ensures
            (final(self)@, action@) == step(old(self)@, event),
    {
        match event {
            OutputEvent::Global { name, interface, version } => {
                if is_output_manager_interface(&interface) {
                    self.output_manager_bound = true;
                    OutputAction::BindOutputManager { name, version }
                } else {
                    OutputAction::Nothing
                }
            },
            OutputEvent::GlobalRemove { .. } => OutputAction::Nothing,
            OutputEvent::Head { head } => {
                self.create_new_head(head);
                OutputAction::Nothing
            },
            OutputEvent::Done { .. } => {
                self.finish_head();
                OutputAction::Publish {
                    configuration: clone_configuration(&self.current_configuration),
                }
            },
            OutputEvent::ManagerFinished => OutputAction::Report {
                object: FinishedObject::OutputManager,
            },
            OutputEvent::Name { name } => {
                if let Some(builder) = &mut self.current_head {
                    builder.name(name);
                }
                OutputAction::Nothing
            },
            OutputEvent::Description { description } => {
                if let Some(builder) = &mut self.current_head {
                    builder.description(description);
                }
                OutputAction::Nothing
            },
            OutputEvent::PhysicalSize { width, height } => {
                if let Some(builder) = &mut self.current_head {
                    builder.size((width, height));
                }
                OutputAction::Nothing
            },
            OutputEvent::Mode { mode } => {
                self.create_new_mode(mode);
                OutputAction::Nothing
            },
            OutputEvent::CurrentMode { mode } => {
                if let Some(builder) = &mut self.current_head {
                    builder.current_mode(mode);
                }
                OutputAction::Nothing
            },
            OutputEvent::Enabled { enabled } => {
                if let Some(builder) = &mut self.current_head {
                    builder.enabled(enabled);
                }
                OutputAction::Nothing
            },
            OutputEvent::Position { x, y } => {
                if let Some(builder) = &mut self.current_head {
                    builder.position((x, y));
                }
                OutputAction::Nothing
            },
            OutputEvent::Transform { transform } => {
                if let Some(builder) = &mut self.current_head {
                    match transform {
                        Some(t) => builder.transform(t),
                        None => {},
                    }
                }
                OutputAction::Nothing
            },
            OutputEvent::Scale { scale } => {
                if let Some(builder) = &mut self.current_head {
                    builder.scale(scale);
                }
                OutputAction::Nothing
            },
            OutputEvent::HeadFinished { head } => {
                self.drop_head(head);
                OutputAction::Report { object: FinishedObject::Head }
            },
            OutputEvent::Make { make } => {
                if let Some(builder) = &mut self.current_head {
                    builder.make(make);
                }
                OutputAction::Nothing
            },
            OutputEvent::Model { model } => {
                if let Some(builder) = &mut self.current_head {
                    builder.model(model);
                }
                OutputAction::Nothing
            },
            OutputEvent::SerialNumber { serial_number } => {
                if let Some(builder) = &mut self.current_head {
                    builder.serial(serial_number);
                }
                OutputAction::Nothing
            },
            OutputEvent::AdaptiveSync { state } => {
                if let Some(builder) = &mut self.current_head {
                    match state {
                        Some(a) => builder.adaptive_sync(a),
                        None => {},
                    }
                }
                OutputAction::Nothing
            },
            OutputEvent::ModeSize { width, height } => {
                if let Some(builder) = &mut self.current_mode {
                    builder.size((width, height));
                }
                OutputAction::Nothing
            },
            OutputEvent::ModeRefresh { refresh } => {
                if let Some(builder) = &mut self.current_mode {
                    builder.refresh(refresh);
                }
                OutputAction::Nothing
            },
            OutputEvent::ModePreferred => {
                if let Some(builder) = &mut self.current_mode {
                    builder.preferred(true);
                }
                OutputAction::Nothing
            },
            OutputEvent::ModeFinished => OutputAction::Report { object: FinishedObject::Mode },
        }
    }
}


/// Any position that holds `id` has a first such position before or at it.
pub proof fn lemma_first_index_exists(c: Seq<MonitorInformationView>, id: u64, j: int)
    requires
        0 <= j < c.len(),
        c[j].id == id,
    ensures
        index_of_head(c, id) is Some,
        is_first_index(c, id, index_of_head(c, id)->0),
    decreases j,
{
    if exists|k: int| 0 <= k < j && c[k].id == id {
        let k = choose|k: int| 0 <= k < j && c[k].id == id;
        lemma_first_index_exists(c, id, k);
    } else {
        assert(is_first_index(c, id, j));
    }
}

/// `index_of_head` finds exactly the heads that are present.
pub proof fn lemma_index_of_head(c: Seq<MonitorInformationView>, id: u64)
    ensures
        index_of_head(c, id) is None <==> (forall|j: int| 0 <= j < c.len() ==> c[j].id != id),
        index_of_head(c, id) is Some ==> is_first_index(c, id, index_of_head(c, id)->0),
{
    if exists|j: int| 0 <= j < c.len() && c[j].id == id {
        let j = choose|j: int| 0 <= j < c.len() && c[j].id == id;
        lemma_first_index_exists(c, id, j);
    }
}

/// Storing a monitor keeps the heads of a configuration distinct.
pub proof fn lemma_insert_keeps_heads_unique(c: Seq<MonitorInformationView>, m: MonitorInformationView)
    requires
        heads_unique(c),
    ensures
        heads_unique(configuration_insert(c, m)),
{
    lemma_index_of_head(c, m.id);
}

/// Storing `m` and reading its id back gives `m`; every other head reads as
/// before, and the configuration gains an entry only when `m` is new.
pub proof fn lemma_insert_then_read(c: Seq<MonitorInformationView>, m: MonitorInformationView, id: u64)
    requires
        heads_unique(c),
    ensures
        ({
            let r = configuration_insert(c, m);
            &&& index_of_head(r, m.id) is Some
            &&& r[index_of_head(r, m.id)->0] == m
            &&& id != m.id ==> match index_of_head(c, id) {
                Some(i) => index_of_head(r, id) is Some && r[index_of_head(r, id)->0] == c[i],
                None => index_of_head(r, id) is None,
            }
            &&& r.len() == if index_of_head(c, m.id) is Some { c.len() } else { c.len() + 1 }
        }),
{
    let r = configuration_insert(c, m);
    lemma_index_of_head(c, m.id);
    lemma_index_of_head(c, id);
    lemma_insert_keeps_heads_unique(c, m);
    lemma_index_of_head(r, m.id);
    lemma_index_of_head(r, id);
    match index_of_head(c, m.id) {
        Some(i) => {
            assert(r[i].id == m.id);
        },
        None => {
            assert(r[c.len() as int].id == m.id);
        },
    }
    if id != m.id {
        match index_of_head(c, id) {
            Some(i) => {
                assert(r[i].id == id);
                let k = index_of_head(r, id)->0;
                assert(k == i);
            },
            None => {},
        }
    }
}

/// A builder made from a monitor builds that same monitor.
pub proof fn lemma_from_value_builds_back(m: MonitorInformationView)
    ensures
        info_build_result(info_builder_of(m)) == Some(m),
{
}

/// Every event keeps the heads of the configuration distinct.
pub proof fn lemma_step_keeps_heads_unique(s: ScreenManagerStateView, e: OutputEvent)
    requires
        heads_unique(s.current_configuration),
    ensures
        heads_unique(step(s, e).0.current_configuration),
{
    if let OutputEvent::HeadFinished { head } = e {
        lemma_remove_head(s.current_configuration, head);
        return;
    }
    let fm = finish_mode_spec(s);
    assert(fm.current_configuration == s.current_configuration);
    match fm.current_head {
        Some(hb) => match info_build_result(hb) {
            Some(m) => lemma_insert_keeps_heads_unique(fm.current_configuration, m),
            None => {},
        },
        None => {},
    }
}

/// On `Done` the loop publishes exactly the configuration that the state
/// holds afterwards, with the pending head stored in it.
pub proof fn lemma_done_publishes_configuration(s: ScreenManagerStateView, serial: u32)
    ensures
        step(s, OutputEvent::Done { serial }).1 == (OutputActionView::Publish {
            configuration: step(s, OutputEvent::Done { serial }).0.current_configuration,
        }),
        step(s, OutputEvent::Done { serial }).0 == finish_head_spec(s),
        step(s, OutputEvent::Done { serial }).0.current_head is None,
        step(s, OutputEvent::Done { serial }).0.current_mode is None,
{
}

/// A head that is announced again, with no property events before `Done`,
/// leaves the configuration as it was.
pub proof fn lemma_reannounce_keeps_configuration(s: ScreenManagerStateView, id: u64, serial: u32)
    requires
        s.current_head is None,
        s.current_mode is None,
        heads_unique(s.current_configuration),
        index_of_head(s.current_configuration, id) is Some,
    ensures
        step(step(s, OutputEvent::Head { head: id }).0, OutputEvent::Done { serial }).0.current_configuration
            == s.current_configuration,
{
    let c = s.current_configuration;
    let i = index_of_head(c, id)->0;
    lemma_index_of_head(c, id);
    let m = c[i];
    lemma_from_value_builds_back(m);
    assert(MonitorInformationBuilderView { id: Some(id), ..info_builder_of(m) } == info_builder_of(m));
    assert(c.update(i, m) =~= c);
}

/// The events that announce a property of the head being announced.
pub open spec fn is_head_property(e: OutputEvent) -> bool {
    ||| e is Name
    ||| e is Description
    ||| e is PhysicalSize
    ||| e is CurrentMode
    ||| e is Enabled
    ||| e is Position
    ||| e is Transform
    ||| e is Scale
    ||| e is Make
    ||| e is Model
    ||| e is SerialNumber
    ||| e is AdaptiveSync
}

/// The events that announce a property of the mode being announced.
pub open spec fn is_mode_property(e: OutputEvent) -> bool {
    e is ModeSize || e is ModeRefresh || e is ModePreferred
}

/// A property event changes only the pending head or mode it concerns:
/// the configuration stays as it is, and with nothing pending nothing
/// changes at all.
pub proof fn lemma_property_events(s: ScreenManagerStateView, e: OutputEvent)
    requires
        is_head_property(e) || is_mode_property(e),
    ensures
        step(s, e).0.current_configuration == s.current_configuration,
        step(s, e).1 == OutputActionView::Nothing,
        is_head_property(e) ==> step(s, e).0.current_mode == s.current_mode,
        is_mode_property(e) ==> step(s, e).0.current_head == s.current_head,
        is_head_property(e) && s.current_head is None ==> step(s, e).0 == s,
        is_mode_property(e) && s.current_mode is None ==> step(s, e).0 == s,
{
}

/// A property event for the head being announced records exactly the value
/// it carries in that one property, and leaves every other property of the
/// head as it was; a transform or adaptive-sync value that the protocol
/// does not know records nothing.
pub proof fn lemma_property_recorded(s: ScreenManagerStateView, e: OutputEvent)
    requires
        s.current_head is Some,
        is_head_property(e),
    ensures
        ({
            let h0 = s.current_head->0;
            let h = step(s, e).0.current_head;
            h is Some && match e {
                OutputEvent::Name { name } => h->0 == MonitorInformationBuilderView {
                    name: Some(name@),
                    ..h0
                },
                OutputEvent::Description { description } => h->0 == MonitorInformationBuilderView {
                    description: Some(description@),
                    ..h0
                },
                OutputEvent::PhysicalSize { width, height } => h->0 == MonitorInformationBuilderView {
                    size: Some((width, height)),
                    ..h0
                },
                OutputEvent::CurrentMode { mode } => h->0 == MonitorInformationBuilderView {
                    current_mode: Some(mode),
                    ..h0
                },
                OutputEvent::Enabled { enabled } => h->0 == MonitorInformationBuilderView {
                    enabled: Some(enabled),
                    ..h0
                },
                OutputEvent::Position { x, y } => h->0 == MonitorInformationBuilderView {
                    position: Some((x, y)),
                    ..h0
                },
                OutputEvent::Transform { transform } => h->0 == match transform {
                    Some(t) => MonitorInformationBuilderView { transform: Some(t), ..h0 },
                    None => h0,
                },
                OutputEvent::Scale { scale } => h->0 == MonitorInformationBuilderView {
                    scale: Some(scale),
                    ..h0
                },
                OutputEvent::Make { make } => h->0 == MonitorInformationBuilderView {
                    make: Some(make@),
                    ..h0
                },
                OutputEvent::Model { model } => h->0 == MonitorInformationBuilderView {
                    model: Some(model@),
                    ..h0
                },
                OutputEvent::SerialNumber { serial_number } => h->0 == MonitorInformationBuilderView {
                    serial: Some(Some(serial_number@)),
                    ..h0
                },
                OutputEvent::AdaptiveSync { state } => h->0 == match state {
                    Some(a) => MonitorInformationBuilderView { adaptive_sync: Some(Some(a)), ..h0 },
                    None => h0,
                },
                _ => true,
            }
        }),
{
}

/// The head has every property that has no default.
pub open spec fn has_required_properties(b: MonitorInformationBuilderView) -> bool {
    &&& b.id is Some
    &&& b.name is Some
    &&& b.model is Some
    &&& b.make is Some
    &&& b.description is Some
    &&& b.size is Some
    &&& b.position is Some
    &&& b.enabled is Some
    &&& b.transform is Some
    &&& b.scale is Some
    &&& b.adaptive_sync is Some
    &&& b.current_mode is Some
}

/// On `Done`, a head being announced with every required property is
/// published under its id with exactly the properties it collected (a
/// serial number that never came reads as none).
pub proof fn lemma_done_publishes_head(s: ScreenManagerStateView, serial: u32)
    requires
        s.current_head is Some,
        has_required_properties(s.current_head->0),
        heads_unique(s.current_configuration),
    ensures
        ({
            let h = s.current_head->0;
            let c = step(s, OutputEvent::Done { serial }).0.current_configuration;
            let i = index_of_head(c, h.id->0);
            &&& i is Some
            &&& c[i->0].id == h.id->0
            &&& c[i->0].name == h.name->0
            &&& c[i->0].model == h.model->0
            &&& c[i->0].make == h.make->0
            &&& c[i->0].description == h.description->0
            &&& c[i->0].size == h.size->0
            &&& c[i->0].position == h.position->0
            &&& c[i->0].enabled == h.enabled->0
            &&& c[i->0].transform == h.transform->0
            &&& c[i->0].scale == h.scale->0
            &&& c[i->0].adaptive_sync == h.adaptive_sync->0
            &&& c[i->0].current_mode == h.current_mode->0
            &&& c[i->0].serial == match h.serial {
                Some(v) => v,
                None => None,
            }
        }),
{
    let s1 = finish_mode_spec(s);
    let hb = s1.current_head->0;
    assert(s1.current_configuration == s.current_configuration);
    let m = info_built(hb);
    assert(info_build_result(hb) == Some(m));
    lemma_insert_then_read(s.current_configuration, m, m.id);
}

/// After a `Position` event for the head being announced and then `Done`,
/// the published entry of that head is at exactly that position.
pub proof fn lemma_position_then_done(s: ScreenManagerStateView, x: i32, y: i32, serial: u32)
    requires
        s.current_head is Some,
        has_required_properties(step(s, OutputEvent::Position { x, y }).0.current_head->0),
        heads_unique(s.current_configuration),
    ensures
        ({
            let s1 = step(s, OutputEvent::Position { x, y }).0;
            let c = step(s1, OutputEvent::Done { serial }).0.current_configuration;
            let i = index_of_head(c, s.current_head->0.id->0);
            i is Some && c[i->0].position == (x, y)
        }),
{
    let s1 = step(s, OutputEvent::Position { x, y }).0;
    lemma_property_recorded(s, OutputEvent::Position { x, y });
    lemma_property_events(s, OutputEvent::Position { x, y });
    lemma_done_publishes_head(s1, serial);
}

/// What removing a head keeps: no entry for it, every other entry, and
/// distinct heads.
pub proof fn lemma_remove_head(c: Seq<MonitorInformationView>, id: u64)
    ensures
        forall|j: int|
            0 <= j < remove_head(c, id).len() ==> #[trigger] remove_head(c, id)[j].id != id && c.contains(
                remove_head(c, id)[j],
            ),
        forall|j: int| 0 <= j < c.len() && c[j].id != id ==> remove_head(c, id).contains(#[trigger] c[j]),
        heads_unique(c) ==> heads_unique(remove_head(c, id)),
    decreases c.len(),
{
    if c.len() > 0 {
        let d = c.drop_last();
        lemma_remove_head(d, id);
        let r = remove_head(d, id);
        assert forall|j: int| 0 <= j < r.len() implies c.contains(r[j]) by {
            assert(r[j].id != id);
            assert(d.contains(r[j]));
            let k = choose|k: int| 0 <= k < d.len() && d[k] == r[j];
            assert(c[k] == r[j]);
        }
        assert forall|j: int| 0 <= j < c.len() && c[j].id != id implies remove_head(c, id).contains(
            #[trigger] c[j],
        ) by {
            if j < c.len() - 1 {
                assert(d[j] == c[j]);
                let k = choose|k: int| 0 <= k < r.len() && r[k] == d[j];
                if c.last().id != id {
                    assert(r.push(c.last())[k] == c[j]);
                }
            } else {
                assert(r.push(c.last())[r.len() as int] == c[j]);
            }
        }
        if c.last().id != id {
            assert forall|j: int| 0 <= j < r.push(c.last()).len() implies #[trigger] r.push(
                c.last(),
            )[j].id != id && c.contains(r.push(c.last())[j]) by {
                if j < r.len() {
                    assert(r.push(c.last())[j] == r[j]);
                } else {
                    assert(c[c.len() - 1] == c.last());
                }
            }
        }
        if heads_unique(c) {
            assert(heads_unique(d));
            if c.last().id != id {
                let r2 = r.push(c.last());
                assert forall|a: int, b: int|
                    0 <= a < r2.len() && 0 <= b < r2.len() && a != b implies r2[a].id != r2[b].id by {
                    if a < r.len() && b < r.len() {
                        assert(r2[a] == r[a] && r2[b] == r[b]);
                    } else if a < r.len() {
                        let k = choose|k: int| 0 <= k < d.len() && d[k] == r[a];
                        assert(c[k] == r[a]);
                        assert(c[c.len() - 1] == r2[b]);
                    } else if b < r.len() {
                        let k = choose|k: int| 0 <= k < d.len() && d[k] == r[b];
                        assert(c[k] == r[b]);
                        assert(c[c.len() - 1] == r2[a]);
                    }
                }
            }
        }
    }
}

/// Removing head `id` keeps every other head.
pub proof fn lemma_remove_head_keeps_others(c: Seq<MonitorInformationView>, id: u64, other: u64)
    requires
        other != id,
    ensures
        stores_head(remove_head(c, id), other) <==> stores_head(c, other),
{
    lemma_remove_head(c, id);
    let r = remove_head(c, id);
    if stores_head(c, other) {
        let j = choose|j: int| 0 <= j < c.len() && c[j].id == other;
        assert(r.contains(c[j]));
    }
    if stores_head(r, other) {
        let j = choose|j: int| 0 <= j < r.len() && r[j].id == other;
        assert(c.contains(r[j]));
    }
}

/// A detached monitor is noticed: after its head is finished, the next
/// `Done` publishes a configuration without it, and the state keeps none.
pub proof fn lemma_finished_head_is_dropped(s: ScreenManagerStateView, id: u64, serial: u32)
    ensures
        ({
            let s1 = step(s, OutputEvent::HeadFinished { head: id }).0;
            let (s2, action) = step(s1, OutputEvent::Done { serial });
            &&& !stores_head(s1.current_configuration, id)
            &&& !stores_head(s2.current_configuration, id)
            &&& action == (OutputActionView::Publish { configuration: s2.current_configuration })
        }),
{
    let s1 = step(s, OutputEvent::HeadFinished { head: id }).0;
    lemma_remove_head(s.current_configuration, id);
    assert(!stores_head(s1.current_configuration, id));
    let fm = finish_mode_spec(s1);
    assert(fm.current_configuration == s1.current_configuration);
    match fm.current_head {
        Some(hb) => match info_build_result(hb) {
            Some(m) => {
                let c = fm.current_configuration;
                assert(m.id != id);
                lemma_index_of_head(c, m.id);
                let r = configuration_insert(c, m);
                assert forall|j: int| 0 <= j < r.len() implies r[j].id != id by {
                    match index_of_head(c, m.id) {
                        Some(k) => if j != k {
                            assert(r[j] == c[j]);
                        },
                        None => if j < c.len() {
                            assert(r[j] == c[j]);
                        },
                    }
                }
            },
            None => {},
        },
        None => {},
    }
}

/// Only a finished head leaves the configuration: a head stored once stays
/// stored (possibly with a newer description) until it is finished.
pub proof fn lemma_step_keeps_heads(s: ScreenManagerStateView, e: OutputEvent, id: u64)
    requires
        index_of_head(s.current_configuration, id) is Some,
        !(e matches OutputEvent::HeadFinished { head } && head == id),
    ensures
        index_of_head(step(s, e).0.current_configuration, id) is Some,
{
    let c = s.current_configuration;
    if let OutputEvent::HeadFinished { head } = e {
        lemma_index_of_head(c, id);
        lemma_remove_head_keeps_others(c, head, id);
        let r = remove_head(c, head);
        let j = choose|j: int| 0 <= j < r.len() && r[j].id == id;
        lemma_index_of_head(r, id);
        return;
    }
    lemma_index_of_head(c, id);
    let i = index_of_head(c, id)->0;
    let fm = finish_mode_spec(s);
    assert(fm.current_configuration == c);
    match fm.current_head {
        Some(hb) => match info_build_result(hb) {
            Some(m) => {
                let r = configuration_insert(c, m);
                lemma_index_of_head(c, m.id);
                if m.id == id {
                    assert(r[i].id == id);
                } else {
                    match index_of_head(c, m.id) {
                        Some(k) => assert(r[i].id == id),
                        None => assert(r[i].id == id),
                    }
                }
                lemma_index_of_head(r, id);
            },
            None => {},
        },
        None => {},
    }
}

} // verus!
