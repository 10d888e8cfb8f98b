use vstd::prelude::*;

verus! {

/// How the compositor transforms the picture of an output.
#[derive(Debug, Clone, Copy, PartialEq, Eq, Structural)]
pub enum OutputTransform {
    Normal,
    Rotate90,
    Rotate180,
    Rotate270,
    Flipped,
    Flipped90,
    Flipped180,
    Flipped270,
}

/// Whether the compositor drives an output with adaptive sync.
#[derive(Debug, Clone, Copy, PartialEq, Eq, Structural)]
pub enum AdaptiveSyncState {
    Disabled,
    Enabled,
}

/// One video mode that a monitor offers. Protocol objects are named by
/// the handles that the event source gives them.
#[derive(Debug, Clone, Copy)]
pub struct MonitorMode {
    pub id: u64,
    pub size: (i32, i32),
    /// Refresh rate in mHz.
    pub refresh: i32,
    pub preferred: bool,
}

/// The description of one attached monitor, as the output-management
/// protocol reports it.
#[derive(Debug)]
pub struct MonitorInformation {
    pub id: u64,
    pub name: String,
    pub model: String,
    pub make: String,
    pub description: String,
    pub size: (i32, i32),
    pub position: (i32, i32),
    pub enabled: i32,
    pub transform: OutputTransform,
    /// The IEEE-754 bits of the scale factor.
    pub scale: u64,
    pub serial: Option<String>,
    pub adaptive_sync: Option<AdaptiveSyncState>,
    pub current_mode: u64,
    pub modes: Vec<MonitorMode>,
}

/// The mathematical value of a [`MonitorInformation`].
pub struct MonitorInformationView {
    pub id: u64,
    pub name: Seq<char>,
    pub model: Seq<char>,
    pub make: Seq<char>,
    pub description: Seq<char>,
    pub size: (i32, i32),
    pub position: (i32, i32),
    pub enabled: i32,
    pub transform: OutputTransform,
    pub scale: u64,
    pub serial: Option<Seq<char>>,
    pub adaptive_sync: Option<AdaptiveSyncState>,
    pub current_mode: u64,
    pub modes: Seq<MonitorMode>,
}

pub open spec fn opt_string_view(s: Option<String>) -> Option<Seq<char>> {
    match s {
        Some(v) => Some(v@),
        None => None,
    }
}

impl View for MonitorInformation {
    type V = MonitorInformationView;

    open spec fn view(&self) -> MonitorInformationView {
        MonitorInformationView {
            id: self.id,
            name: self.name@,
            model: self.model@,
            make: self.make@,
            description: self.description@,
            size: self.size,
            position: self.position,
            enabled: self.enabled,
            transform: self.transform,
            scale: self.scale,
            serial: opt_string_view(self.serial),
            adaptive_sync: self.adaptive_sync,
            current_mode: self.current_mode,
            modes: self.modes@,
        }
    }
}

impl MonitorMode {
    pub fn id(&self) -> (r: &u64)
        ensures
            *r == self.id,
    {
        &self.id
    }

    pub fn size(&self) -> (r: &(i32, i32))
        ensures
            *r == self.size,
    {
        &self.size
    }

    pub fn refresh(&self) -> (r: &i32)
        ensures
            *r == self.refresh,
    {
        &self.refresh
    }

    pub fn preferred(&self) -> (r: &bool)
        ensures
            *r == self.preferred,
    {
        &self.preferred
    }
}

impl MonitorInformation {
    pub fn id(&self) -> (r: &u64)
        ensures
            *r == self.id,
    {
        &self.id
    }

    pub fn name(&self) -> (r: &String)
        ensures
            *r == self.name,
    {
        &self.name
    }

    pub fn model(&self) -> (r: &String)
        ensures
            *r == self.model,
    {
        &self.model
    }

    pub fn make(&self) -> (r: &String)
        ensures
            *r == self.make,
    {
        &self.make
    }

    pub fn description(&self) -> (r: &String)
        ensures
            *r == self.description,
    {
        &self.description
    }

    pub fn size(&self) -> (r: &(i32, i32))
        ensures
            *r == self.size,
    {
        &self.size
    }

    pub fn position(&self) -> (r: &(i32, i32))
        ensures
            *r == self.position,
    {
        &self.position
    }

    pub fn enabled(&self) -> (r: &i32)
        ensures
            *r == self.enabled,
    {
        &self.enabled
    }

    pub fn transform(&self) -> (r: &OutputTransform)
        ensures
            *r == self.transform,
    {
        &self.transform
    }

    pub fn scale(&self) -> (r: &u64)
        ensures
            *r == self.scale,
    {
        &self.scale
    }

    pub fn serial(&self) -> (r: &Option<String>)
        ensures
            *r == self.serial,
    {
        &self.serial
    }

    pub fn adaptive_sync(&self) -> (r: &Option<AdaptiveSyncState>)
        ensures
            *r == self.adaptive_sync,
    {
        &self.adaptive_sync
    }

    pub fn current_mode(&self) -> (r: &u64)
        ensures
            *r == self.current_mode,
    {
        &self.current_mode
    }

    pub fn modes(&self) -> (r: &Vec<MonitorMode>)
        ensures
            *r == self.modes,
    {
        &self.modes
    }
}

pub fn clone_opt_string(s: &Option<String>) -> (res: Option<String>)
    ensures
        opt_string_view(res) == opt_string_view(*s),
{
    match s {
        Some(v) => Some(v.clone()),
        None => None,
    }
}

pub fn clone_modes(modes: &Vec<MonitorMode>) -> (res: Vec<MonitorMode>)
    ensures
        res@ == modes@,
{
    let mut res: Vec<MonitorMode> = Vec::new();
    for i in 0..modes.len()
        invariant
            res@ == modes@.take(i as int),
    {
        res.push(modes[i]);
        assert(res@ == modes@.take(i + 1));
    }
    assert(modes@.take(modes@.len() as int) == modes@);
    res
}

impl Clone for MonitorInformation {
    fn clone(&self) -> (res: Self)
        ensures
            res@ == self@,
    {
        MonitorInformation {
            id: self.id,
            name: self.name.clone(),
            model: self.model.clone(),
            make: self.make.clone(),
            description: self.description.clone(),
            size: self.size,
            position: self.position,
            enabled: self.enabled,
            transform: self.transform,
            scale: self.scale,
            serial: clone_opt_string(&self.serial),
            adaptive_sync: self.adaptive_sync,
            current_mode: self.current_mode,
            modes: clone_modes(&self.modes),
        }
    }
}


/// Why a builder could not produce a [`MonitorMode`].
#[derive(Debug, Clone, Copy, PartialEq, Eq)]
pub enum MonitorModeBuilderError {
    UninitializedField(&'static str),
}

/// Collects the properties of a mode as its events arrive.
#[derive(Debug, Clone, Copy)]
pub struct MonitorModeBuilder {
    pub id: Option<u64>,
    pub size: Option<(i32, i32)>,
    pub refresh: Option<i32>,
    pub preferred: Option<bool>,
}

/// A mode builder holds every property that has no default.
pub open spec fn mode_builder_complete(b: MonitorModeBuilder) -> bool {
    b.id is Some && b.size is Some && b.refresh is Some
}

/// The mode that a complete builder produces; `preferred` defaults to false.
pub open spec fn mode_built(b: MonitorModeBuilder) -> MonitorMode {
    MonitorMode {
        id: b.id->0,
        size: b.size->0,
        refresh: b.refresh->0,
        preferred: match b.preferred {
            Some(p) => p,
            None => false,
        },
    }
}

impl Default for MonitorModeBuilder {
    fn default() -> (b: Self)
        ensures
            b.id is None,
            b.size is None,
            b.refresh is None,
            b.preferred is None,
    {
        MonitorModeBuilder { id: None, size: None, refresh: None, preferred: None }
    }
}

impl MonitorModeBuilder {

    pub fn id(&mut self, value: u64)
        ensures
            *final(self) == (MonitorModeBuilder { id: Some(value), ..*old(self) }),
    {
        self.id = Some(value);
    }

    pub fn size(&mut self, value: (i32, i32))
        ensures
            *final(self) == (MonitorModeBuilder { size: Some(value), ..*old(self) }),
    {
        self.size = Some(value);
    }

    pub fn refresh(&mut self, value: i32)
        ensures
            *final(self) == (MonitorModeBuilder { refresh: Some(value), ..*old(self) }),
    {
        self.refresh = Some(value);
    }

    pub fn preferred(&mut self, value: bool)
        ensures
            *final(self) == (MonitorModeBuilder { preferred: Some(value), ..*old(self) }),
    {
        self.preferred = Some(value);
    }

    /// Produces the mode, or names the first property (in declaration
    /// order) that was never set.
    pub fn build(&self) -> (res: Result<MonitorMode, MonitorModeBuilderError>)
        ensures
            res is Ok <==> mode_builder_complete(*self),
            res is Ok ==> res->Ok_0 == mode_built(*self),
            self.id is None ==> res == Err::<MonitorMode, _>(
                MonitorModeBuilderError::UninitializedField("id"),
            ),
            self.id is Some && self.size is None ==> res == Err::<MonitorMode, _>(
                MonitorModeBuilderError::UninitializedField("size"),
            ),
            self.id is Some && self.size is Some && self.refresh is None ==> res == Err::<
                MonitorMode,
                _,
            >(MonitorModeBuilderError::UninitializedField("refresh")),
    {
        let id = match self.id {
            Some(v) => v,
            None => { return Err(MonitorModeBuilderError::UninitializedField("id")) },
        };
        let size = match self.size {
            Some(v) => v,
            None => { return Err(MonitorModeBuilderError::UninitializedField("size")) },
        };
        let refresh = match self.refresh {
            Some(v) => v,
            None => { return Err(MonitorModeBuilderError::UninitializedField("refresh")) },
        };
        let preferred = match self.preferred {
            Some(v) => v,
            None => false,
        };
        Ok(MonitorMode { id, size, refresh, preferred })
    }
}


/// Why a builder could not produce a [`MonitorInformation`].
#[derive(Debug, Clone, Copy, PartialEq, Eq)]
pub enum MonitorInformationBuilderError {
    UninitializedField(&'static str),
}

/// Collects the properties of a monitor as its events arrive.
#[derive(Debug)]
pub struct MonitorInformationBuilder {
    pub id: Option<u64>,
    pub name: Option<String>,
    pub model: Option<String>,
    pub make: Option<String>,
    pub description: Option<String>,
    pub size: Option<(i32, i32)>,
    pub position: Option<(i32, i32)>,
    pub enabled: Option<i32>,
    pub transform: Option<OutputTransform>,
    pub scale: Option<u64>,
    pub serial: Option<Option<String>>,
    pub adaptive_sync: Option<Option<AdaptiveSyncState>>,
    pub current_mode: Option<u64>,
    pub modes: Option<Vec<MonitorMode>>,
}

/// The mathematical value of a [`MonitorInformationBuilder`].
pub struct MonitorInformationBuilderView {
    pub id: Option<u64>,
    pub name: Option<Seq<char>>,
    pub model: Option<Seq<char>>,
    pub make: Option<Seq<char>>,
    pub description: Option<Seq<char>>,
    pub size: Option<(i32, i32)>,
    pub position: Option<(i32, i32)>,
    pub enabled: Option<i32>,
    pub transform: Option<OutputTransform>,
    pub scale: Option<u64>,
    pub serial: Option<Option<Seq<char>>>,
    pub adaptive_sync: Option<Option<AdaptiveSyncState>>,
    pub current_mode: Option<u64>,
    pub modes: Option<Seq<MonitorMode>>,
}

impl View for MonitorInformationBuilder {
    type V = MonitorInformationBuilderView;

    open spec fn view(&self) -> MonitorInformationBuilderView {
        MonitorInformationBuilderView {
            id: self.id,
            name: opt_string_view(self.name),
            model: opt_string_view(self.model),
            make: opt_string_view(self.make),
            description: opt_string_view(self.description),
            size: self.size,
            position: self.position,
            enabled: self.enabled,
            transform: self.transform,
            scale: self.scale,
            serial: match self.serial {
                Some(s) => Some(opt_string_view(s)),
                None => None,
            },
            adaptive_sync: self.adaptive_sync,
            current_mode: self.current_mode,
            modes: match self.modes {
                Some(m) => Some(m@),
                None => None,
            },
        }
    }
}

/// The builder with nothing set.
pub open spec fn empty_info_builder() -> MonitorInformationBuilderView {
    MonitorInformationBuilderView {
        id: None,
        name: None,
        model: None,
        make: None,
        description: None,
        size: None,
        position: None,
        enabled: None,
        transform: None,
        scale: None,
        serial: None,
        adaptive_sync: None,
        current_mode: None,
        modes: None,
    }
}

/// The builder that holds every property of `m`.
pub open spec fn info_builder_of(m: MonitorInformationView) -> MonitorInformationBuilderView {
    MonitorInformationBuilderView {
        id: Some(m.id),
        name: Some(m.name),
        model: Some(m.model),
        make: Some(m.make),
        description: Some(m.description),
        size: Some(m.size),
        position: Some(m.position),
        enabled: Some(m.enabled),
        transform: Some(m.transform),
        scale: Some(m.scale),
        serial: Some(m.serial),
        adaptive_sync: Some(m.adaptive_sync),
        current_mode: Some(m.current_mode),
        modes: Some(m.modes),
    }
}

/// The first property, in declaration order, that has no default and was
/// never set; `None` when the builder is complete.
pub open spec fn info_missing_field(b: MonitorInformationBuilderView) -> Option<&'static str> {
    if b.id is None {
        Some("id")
    } else if b.name is None {
        Some("name")
    } else if b.model is None {
        Some("model")
    } else if b.make is None {
        Some("make")
    } else if b.description is None {
        Some("description")
    } else if b.size is None {
        Some("size")
    } else if b.position is None {
        Some("position")
    } else if b.enabled is None {
        Some("enabled")
    } else if b.transform is None {
        Some("transform")
    } else if b.scale is None {
        Some("scale")
    } else if b.adaptive_sync is None {
        Some("adaptive_sync")
    } else if b.current_mode is None {
        Some("current_mode")
    } else {
        None
    }
}

/// The monitor that a complete builder produces; an unset serial defaults
/// to `None` and unset modes to the empty list.
pub open spec fn info_built(b: MonitorInformationBuilderView) -> MonitorInformationView {
    MonitorInformationView {
        id: b.id->0,
        name: b.name->0,
        model: b.model->0,
        make: b.make->0,
        description: b.description->0,
        size: b.size->0,
        position: b.position->0,
        enabled: b.enabled->0,
        transform: b.transform->0,
        scale: b.scale->0,
        serial: match b.serial {
            Some(s) => s,
            None => None,
        },
        adaptive_sync: b.adaptive_sync->0,
        current_mode: b.current_mode->0,
        modes: match b.modes {
            Some(m) => m,
            None => Seq::empty(),
        },
    }
}

/// What building gives: the monitor, or the first missing property.
pub open spec fn info_build_result(b: MonitorInformationBuilderView) -> Option<
    MonitorInformationView,
> {
    if info_missing_field(b) is None {
        Some(info_built(b))
    } else {
        None
    }
}

fn clone_opt_opt_string(s: &Option<Option<String>>) -> (res: Option<Option<String>>)
    ensures
        match res {
            Some(r) => s.is_some() && opt_string_view(r) == opt_string_view(s->0),
            None => s.is_none(),
        },
{
    match s {
        Some(v) => Some(clone_opt_string(v)),
        None => None,
    }
}

impl Default for MonitorInformationBuilder {
    fn default() -> (b: Self)
        ensures
            b@ == empty_info_builder(),
    {
        MonitorInformationBuilder {
            id: None,
            name: None,
            model: None,
            make: None,
            description: None,
            size: None,
            position: None,
            enabled: None,
            transform: None,
            scale: None,
            serial: None,
            adaptive_sync: None,
            current_mode: None,
            modes: None,
        }
    }

}

impl MonitorInformationBuilder {
    pub fn id(&mut self, value: u64)
        ensures
            final(self)@ == (MonitorInformationBuilderView { id: Some(value), ..old(self)@ }),
    {
        self.id = Some(value);
    }

    pub fn name(&mut self, value: String)
        ensures
            final(self)@ == (MonitorInformationBuilderView { name: Some(value@), ..old(self)@ }),
    {
        self.name = Some(value);
    }

    pub fn model(&mut self, value: String)
        ensures
            final(self)@ == (MonitorInformationBuilderView { model: Some(value@), ..old(self)@ }),
    {
        self.model = Some(value);
    }

    pub fn make(&mut self, value: String)
        ensures
            final(self)@ == (MonitorInformationBuilderView { make: Some(value@), ..old(self)@ }),
    {
        self.make = Some(value);
    }

    pub fn description(&mut self, value: String)
        ensures
            final(self)@ == (MonitorInformationBuilderView { description: Some(value@), ..old(self)@ }),
    {
        self.description = Some(value);
    }

    pub fn size(&mut self, value: (i32, i32))
        ensures
            final(self)@ == (MonitorInformationBuilderView { size: Some(value), ..old(self)@ }),
    {
        self.size = Some(value);
    }

    pub fn position(&mut self, value: (i32, i32))
        ensures
            final(self)@ == (MonitorInformationBuilderView { position: Some(value), ..old(self)@ }),
    {
        self.position = Some(value);
    }

    pub fn enabled(&mut self, value: i32)
        ensures
            final(self)@ == (MonitorInformationBuilderView { enabled: Some(value), ..old(self)@ }),
    {
        self.enabled = Some(value);
    }

    pub fn transform(&mut self, value: OutputTransform)
        ensures
            final(self)@ == (MonitorInformationBuilderView { transform: Some(value), ..old(self)@ }),
    {
        self.transform = Some(value);
    }

    pub fn scale(&mut self, value: u64)
        ensures
            final(self)@ == (MonitorInformationBuilderView { scale: Some(value), ..old(self)@ }),
    {
        self.scale = Some(value);
    }

    pub fn serial(&mut self, value: String)
        ensures
            final(self)@ == (MonitorInformationBuilderView { serial: Some(Some(value@)), ..old(self)@ }),
    {
        self.serial = Some(Some(value));
    }

    pub fn adaptive_sync(&mut self, value: AdaptiveSyncState)
        ensures
            final(self)@ == (MonitorInformationBuilderView { adaptive_sync: Some(Some(value)), ..old(self)@ }),
    {
        self.adaptive_sync = Some(Some(value));
    }

    pub fn current_mode(&mut self, value: u64)
        ensures
            final(self)@ == (MonitorInformationBuilderView { current_mode: Some(value), ..old(self)@ }),
    {
        self.current_mode = Some(value);
    }

    pub fn modes(&mut self, value: Vec<MonitorMode>)
        ensures
            final(self)@ == (MonitorInformationBuilderView { modes: Some(value@), ..old(self)@ }),
    {
        self.modes = Some(value);
    }

    /// A builder that already holds every property of `monitor_information`.
    pub fn from_value(monitor_information: &MonitorInformation) -> (b: Self)
        ensures
            b@ == info_builder_of(monitor_information@),
    {
        MonitorInformationBuilder {
            id: Some(monitor_information.id),
            name: Some(monitor_information.name.clone()),
            model: Some(monitor_information.model.clone()),
            make: Some(monitor_information.make.clone()),
            description: Some(monitor_information.description.clone()),
            size: Some(monitor_information.size),
            position: Some(monitor_information.position),
            enabled: Some(monitor_information.enabled),
            transform: Some(monitor_information.transform),
            scale: Some(monitor_information.scale),
            serial: Some(clone_opt_string(&monitor_information.serial)),
            adaptive_sync: Some(monitor_information.adaptive_sync),
            current_mode: Some(monitor_information.current_mode),
            modes: Some(clone_modes(&monitor_information.modes)),
        }
    }

    /// Appends `mode` to the modes collected so far.
    pub fn add_mode(&mut self, mode: MonitorMode) -> (r: &mut Self)
        ensures
            r@ == (MonitorInformationBuilderView {
                modes: Some(
                    match old(self)@.modes {
                        Some(m) => m.push(mode),
                        None => seq![mode],
                    },
                ),
                ..old(self)@
            }),
            *final(self) == *final(r),
    {
        match &mut self.modes {
            Some(modes) => {
                modes.push(mode);
            },
            None => {
                let mut modes = Vec::new();
                modes.push(mode);
                self.modes = Some(modes);
            },
        }
        self
    }

    /// Produces the monitor, or names the first property (in declaration
    /// order) that has no default and was never set.
    pub fn build(&self) -> (res: Result<MonitorInformation, MonitorInformationBuilderError>)
        ensures
            match res {
                Ok(m) => info_build_result(self@) == Some(m@),
                Err(MonitorInformationBuilderError::UninitializedField(f)) => {
                    info_build_result(self@) is None && info_missing_field(self@) == Some(f)
                },
            },
    {
        let id = match self.id {
            Some(v) => v,
            None => { return Err(MonitorInformationBuilderError::UninitializedField("id")) },
        };
        let name = match &self.name {
            Some(v) => v.clone(),
            None => { return Err(MonitorInformationBuilderError::UninitializedField("name")) },
        };
        let model = match &self.model {
            Some(v) => v.clone(),
            None => { return Err(MonitorInformationBuilderError::UninitializedField("model")) },
        };
        let make = match &self.make {
            Some(v) => v.clone(),
            None => { return Err(MonitorInformationBuilderError::UninitializedField("make")) },
        };
        let description = match &self.description {
            Some(v) => v.clone(),
            None => {
                return Err(MonitorInformationBuilderError::UninitializedField("description"))
            },
        };
        let size = match self.size {
            Some(v) => v,
            None => { return Err(MonitorInformationBuilderError::UninitializedField("size")) },
        };
        let position = match self.position {
            Some(v) => v,
            None => { return Err(MonitorInformationBuilderError::UninitializedField("position")) },
        };
        let enabled = match self.enabled {
            Some(v) => v,
            None => { return Err(MonitorInformationBuilderError::UninitializedField("enabled")) },
        };
        let transform = match self.transform {
            Some(v) => v,
            None => {
                return Err(MonitorInformationBuilderError::UninitializedField("transform"))
            },
        };
        let scale = match self.scale {
            Some(v) => v,
            None => { return Err(MonitorInformationBuilderError::UninitializedField("scale")) },
        };
        let serial = match &self.serial {
            Some(v) => clone_opt_string(v),
            None => None,
        };
        let adaptive_sync = match self.adaptive_sync {
            Some(v) => v,
            None => {
                return Err(MonitorInformationBuilderError::UninitializedField("adaptive_sync"))
            },
        };
        let current_mode = match self.current_mode {
            Some(v) => v,
            None => {
                return Err(MonitorInformationBuilderError::UninitializedField("current_mode"))
            },
        };
        let modes = match &self.modes {
            Some(v) => clone_modes(v),
            None => Vec::new(),
        };
        Ok(
            MonitorInformation {
                id,
                name,
                model,
                make,
                description,
                size,
                position,
                enabled,
                transform,
                scale,
                serial,
                adaptive_sync,
                current_mode,
                modes,
            },
        )
    }
}

} // verus!
