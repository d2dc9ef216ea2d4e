//! The settings that the engine reads.

pub mod field_map;

use crate::text::same_text;
use field_map::FieldMap;
use vstd::prelude::*;

verus! {

/// The settings of a run. A field that is `None` was not given.
#[derive(Debug)]
pub struct Config {
    pub number_of_entries: Option<u32>,
    pub timestamp_format: Option<String>,
    pub use_now_as_timestamp: Option<bool>,
    pub generation_duration: Option<String>,
    pub start_timestamp: Option<String>,
    pub distribution_by: Option<String>,
    pub exporters: Option<Vec<ConfigExporter>>,
}

/// The characters of a text that may be missing.
pub open spec fn text_of(text: Option<String>) -> Option<Seq<char>> {
    match text {
        Some(t) => Some(t@),
        None => None,
    }
}

impl Config {
    /// Settings of which none is given.
    pub fn new() -> (config: Config)
        ensures
            config.number_of_entries.is_none(),
            config.timestamp_format.is_none(),
            config.use_now_as_timestamp.is_none(),
            config.generation_duration.is_none(),
            config.start_timestamp.is_none(),
            config.distribution_by.is_none(),
            config.exporters.is_none(),
    {
        Config {
            number_of_entries: None,
            timestamp_format: None,
            use_now_as_timestamp: None,
            generation_duration: None,
            start_timestamp: None,
            distribution_by: None,
            exporters: None,
        }
    }

    /// What is given for `number_of_entries`.
    pub fn number_of_entries(&self) -> (val: &Option<u32>)
        ensures
            *val == self.number_of_entries,
    {
        &self.number_of_entries
    }

    /// Gives `number_of_entries` anew, or takes it back with `None`.
    pub fn set_number_of_entries(&mut self, val: Option<u32>) -> (this: &mut Self)
        ensures
            *this == (Config { number_of_entries: val, ..*old(self) }),
            *final(self) == *final(this),
    {
        self.number_of_entries = val;
        self
    }

    /// What is given for `timestamp_format`.
    pub fn timestamp_format(&self) -> (val: &Option<String>)
        ensures
            *val == self.timestamp_format,
    {
        &self.timestamp_format
    }

    /// Gives `timestamp_format` anew, or takes it back with `None`.
    pub fn set_timestamp_format(&mut self, val: Option<String>) -> (this: &mut Self)
        ensures
            *this == (Config { timestamp_format: val, ..*old(self) }),
            *final(self) == *final(this),
    {
        self.timestamp_format = val;
        self
    }

    /// What is given for `use_now_as_timestamp`.
    pub fn use_now_as_timestamp(&self) -> (val: &Option<bool>)
        ensures
            *val == self.use_now_as_timestamp,
    {
        &self.use_now_as_timestamp
    }

    /// Gives `use_now_as_timestamp` anew, or takes it back with `None`.
    pub fn set_use_now_as_timestamp(&mut self, val: Option<bool>) -> (this: &mut Self)
        ensures
            *this == (Config { use_now_as_timestamp: val, ..*old(self) }),
            *final(self) == *final(this),
    {
        self.use_now_as_timestamp = val;
        self
    }

    /// What is given for `generation_duration`.
    pub fn generation_duration(&self) -> (val: &Option<String>)
        ensures
            *val == self.generation_duration,
    {
        &self.generation_duration
    }

    /// Gives `generation_duration` anew, or takes it back with `None`.
    pub fn set_generation_duration(&mut self, val: Option<String>) -> (this: &mut Self)
        ensures
            *this == (Config { generation_duration: val, ..*old(self) }),
            *final(self) == *final(this),
    {
        self.generation_duration = val;
        self
    }

    /// What is given for `start_timestamp`.
    pub fn start_timestamp(&self) -> (val: &Option<String>)
        ensures
            *val == self.start_timestamp,
    {
        &self.start_timestamp
    }

    /// Gives `start_timestamp` anew, or takes it back with `None`.
    pub fn set_start_timestamp(&mut self, val: Option<String>) -> (this: &mut Self)
        ensures
            *this == (Config { start_timestamp: val, ..*old(self) }),
            *final(self) == *final(this),
    {
        self.start_timestamp = val;
        self
    }

    /// What is given for `distribution_by`.
    pub fn distribution_by(&self) -> (val: &Option<String>)
        ensures
            *val == self.distribution_by,
    {
        &self.distribution_by
    }

    /// Gives `distribution_by` anew, or takes it back with `None`.
    pub fn set_distribution_by(&mut self, val: Option<String>) -> (this: &mut Self)
        ensures
            *this == (Config { distribution_by: val, ..*old(self) }),
            *final(self) == *final(this),
    {
        self.distribution_by = val;
        self
    }

    /// What is given for `exporters`.
    pub fn exporters(&self) -> (val: &Option<Vec<ConfigExporter>>)
        ensures
            *val == self.exporters,
    {
        &self.exporters
    }

    /// Gives `exporters` anew, or takes it back with `None`.
    pub fn set_exporters(&mut self, val: Option<Vec<ConfigExporter>>) -> (this: &mut Self)
        ensures
            *this == (Config { exporters: val, ..*old(self) }),
            *final(self) == *final(this),
    {
        self.exporters = val;
        self
    }
}

/// One exporter of the run. A field that is `None` was not given.
#[derive(Debug)]
pub struct ConfigExporter {
    pub name: Option<String>,
    pub verbose: Option<bool>,
    pub enabled: Option<bool>,
    pub fields: Option<FieldMap>,
}

/// What an exporter's settings say, as plain values.
pub struct ExporterView {
    pub name: Option<Seq<char>>,
    pub verbose: Option<bool>,
    pub enabled: Option<bool>,
    pub fields: Option<Map<Seq<char>, Seq<char>>>,
}

impl View for ConfigExporter {
    type V = ExporterView;

    open spec fn view(&self) -> ExporterView {
        ExporterView {
            name: text_of(self.name),
            verbose: self.verbose,
            enabled: self.enabled,
            fields: match self.fields {
                Some(fields) => Some(fields@),
                None => None,
            },
        }
    }
}

/// A switch as given, or as the defaults give it, or off.
pub open spec fn switch_or(own: Option<bool>, from: Option<bool>) -> Option<bool> {
    if own.is_some() {
        own
    } else if from.is_some() {
        from
    } else {
        Some(false)
    }
}

/// The settings `own` with what they lack taken from `from`: name and
/// switches as a whole, the fields key by key. A switch that neither gives is
/// off.
pub open spec fn filled_from(own: ExporterView, from: ExporterView) -> ExporterView {
    ExporterView {
        name: if own.name.is_some() {
            own.name
        } else {
            from.name
        },
        verbose: switch_or(own.verbose, from.verbose),
        enabled: switch_or(own.enabled, from.enabled),
        fields: match own.fields {
            None => from.fields,
            Some(mine) => match from.fields {
                None => Some(mine),
                Some(theirs) => Some(theirs.union_prefer_right(mine)),
            },
        },
    }
}

/// A copy of a text that may be missing.
fn clone_text(text: &Option<String>) -> (copy: Option<String>)
    ensures
        copy == *text,
{
    match text {
        Some(t) => Some(t.clone()),
        None => None,
    }
}

impl ConfigExporter {
    /// Whether the fields, where given, are a well-formed map.
    pub open spec fn wf(&self) -> bool {
        self.fields matches Some(fields) ==> fields.wf()
    }

    /// What is given for `name`.
    pub fn name(&self) -> (val: &Option<String>)
        ensures
            *val == self.name,
    {
        &self.name
    }

    /// Gives `name` anew, or takes it back with `None`.
    pub fn set_name(&mut self, val: Option<String>) -> (this: &mut Self)
        ensures
            *this == (ConfigExporter { name: val, ..*old(self) }),
            *final(self) == *final(this),
    {
        self.name = val;
        self
    }

    /// What is given for `verbose`.
    pub fn verbose(&self) -> (val: &Option<bool>)
        ensures
            *val == self.verbose,
    {
        &self.verbose
    }

    /// Gives `verbose` anew, or takes it back with `None`.
    pub fn set_verbose(&mut self, val: Option<bool>) -> (this: &mut Self)
        ensures
            *this == (ConfigExporter { verbose: val, ..*old(self) }),
            *final(self) == *final(this),
    {
        self.verbose = val;
        self
    }

    /// What is given for `enabled`.
    pub fn enabled(&self) -> (val: &Option<bool>)
        ensures
            *val == self.enabled,
    {
        &self.enabled
    }

    /// Gives `enabled` anew, or takes it back with `None`.
    pub fn set_enabled(&mut self, val: Option<bool>) -> (this: &mut Self)
        ensures
            *this == (ConfigExporter { enabled: val, ..*old(self) }),
            *final(self) == *final(this),
    {
        self.enabled = val;
        self
    }

    /// What is given for `fields`.
    pub fn fields(&self) -> (val: &Option<FieldMap>)
        ensures
            *val == self.fields,
    {
        &self.fields
    }

    /// Gives `fields` anew, or takes it back with `None`.
    pub fn set_fields(&mut self, val: Option<FieldMap>) -> (this: &mut Self)
        ensures
            *this == (ConfigExporter { fields: val, ..*old(self) }),
            *final(self) == *final(this),
    {
        self.fields = val;
        self
    }

    /// Takes from `from` what these settings lack.
    pub fn back_fill(&mut self, from: &ConfigExporter)
        requires
            old(self).wf(),
            from.wf(),
        ensures
            final(self).wf(),
            final(self)@ == filled_from(old(self)@, from@),
    {
        if self.name.is_none() {
            self.name = clone_text(&from.name);
        }
        if self.verbose.is_none() {
            self.verbose = from.verbose;
            if self.verbose.is_none() {
                self.verbose = Some(false);
            }
        }
        if self.enabled.is_none() {
            self.enabled = from.enabled;
            if self.enabled.is_none() {
                self.enabled = Some(false);
            }
        }
        match &mut self.fields {
            None => {
                self.fields = match &from.fields {
                    Some(theirs) => Some(theirs.clone()),
                    None => None,
                };
            },
            Some(mine) => {
                match &from.fields {
                    Some(theirs) => {
                        mine.fill_from(theirs);
                    },
                    None => {},
                }
            },
        }
    }
}

/// What the settings of a run say, as plain values.
pub struct ConfigView {
    pub number_of_entries: Option<u32>,
    pub timestamp_format: Option<Seq<char>>,
    pub use_now_as_timestamp: Option<bool>,
    pub generation_duration: Option<Seq<char>>,
    pub start_timestamp: Option<Seq<char>>,
    pub distribution_by: Option<Seq<char>>,
    pub exporters: Option<Seq<ExporterView>>,
}

/// What each of `list` says, in order.
pub open spec fn exporter_views(list: Seq<ConfigExporter>) -> Seq<ExporterView> {
    Seq::new(list.len(), |i: int| list[i]@)
}

impl View for Config {
    type V = ConfigView;

    open spec fn view(&self) -> ConfigView {
        ConfigView {
            number_of_entries: self.number_of_entries,
            timestamp_format: text_of(self.timestamp_format),
            use_now_as_timestamp: self.use_now_as_timestamp,
            generation_duration: text_of(self.generation_duration),
            start_timestamp: text_of(self.start_timestamp),
            distribution_by: text_of(self.distribution_by),
            exporters: match self.exporters {
                Some(list) => Some(exporter_views(list@)),
                None => None,
            },
        }
    }
}

/// A setting as given, or else as the defaults give it.
pub open spec fn given_or<T>(own: Option<T>, from: Option<T>) -> Option<T> {
    if own.is_some() {
        own
    } else {
        from
    }
}

/// An exporter of which nothing is given but that it has no fields and is
/// switched off.
pub open spec fn switched_off() -> ExporterView {
    ExporterView {
        name: None,
        verbose: Some(false),
        enabled: Some(false),
        fields: Some(Map::empty()),
    }
}

/// An exporter of which nothing is given but that it has no fields.
pub open spec fn unnamed() -> ExporterView {
    ExporterView { name: None, verbose: None, enabled: None, fields: Some(Map::empty()) }
}

/// The exporter `own` with every switch that is not given off, and with no
/// fields where none are given.
pub open spec fn settled(own: ExporterView) -> ExporterView {
    ExporterView {
        name: own.name,
        verbose: switch_or(own.verbose, None),
        enabled: switch_or(own.enabled, None),
        fields: match own.fields {
            Some(fields) => Some(fields),
            None => Some(Map::empty()),
        },
    }
}

/// Whether each of `list` has a name.
pub open spec fn all_named(list: Seq<ExporterView>) -> bool {
    forall|i: int| 0 <= i < list.len() ==> (#[trigger] list[i]).name.is_some()
}

/// The names of `list`, in order.
pub open spec fn names_of(list: Seq<ExporterView>) -> Seq<Seq<char>> {
    Seq::new(list.len(), |i: int| list[i].name.unwrap())
}

/// The exporters of `from` whose name is none of `names`, in order, each
/// with its switches settled.
pub open spec fn missing_from(names: Seq<Seq<char>>, from: Seq<ExporterView>) -> Seq<
    ExporterView,
>
    decreases from.len(),
{
    if from.len() == 0 {
        Seq::empty()
    } else if names.contains(from.last().name.unwrap()) {
        missing_from(names, from.drop_last())
    } else {
        missing_from(names, from.drop_last()).push(filled_from(unnamed(), from.last()))
    }
}

/// The exporters of a run that gave `own` when the defaults give `from`.
/// A run that gave none takes over those of the defaults, by name and
/// fields, all switched off. A run that gave some keeps them, settled, and
/// takes over behind them those of the defaults that it has not named.
pub open spec fn merged_exporters(own: Option<Seq<ExporterView>>, from: Seq<ExporterView>) -> Seq<
    ExporterView,
> {
    match own {
        None => Seq::new(from.len(), |i: int| filled_from(switched_off(), from[i])),
        Some(list) => Seq::new(list.len(), |i: int| settled(list[i])) + missing_from(
            names_of(list),
            from,
        ),
    }
}

/// The settings `own` with what they lack taken from `from`.
pub open spec fn back_filled(own: ConfigView, from: ConfigView) -> ConfigView {
    ConfigView {
        number_of_entries: given_or(own.number_of_entries, from.number_of_entries),
        timestamp_format: given_or(own.timestamp_format, from.timestamp_format),
        use_now_as_timestamp: given_or(own.use_now_as_timestamp, from.use_now_as_timestamp),
        generation_duration: given_or(own.generation_duration, from.generation_duration),
        start_timestamp: given_or(own.start_timestamp, from.start_timestamp),
        distribution_by: given_or(own.distribution_by, from.distribution_by),
        exporters: Some(merged_exporters(own.exporters, from.exporters.unwrap())),
    }
}

/// Whether each of `list` is well formed.
pub open spec fn all_wf(list: Seq<ConfigExporter>) -> bool {
    forall|i: int| 0 <= i < list.len() ==> (#[trigger] list[i]).wf()
}

/// Whether one of `names` reads `name`.
fn names_contain(names: &Vec<String>, name: &str) -> (found: bool)
    ensures
        found == Seq::new(names@.len(), |i: int| names@[i]@).contains(name@),
{
    let ghost texts = Seq::new(names@.len(), |i: int| names@[i]@);
    let mut i: usize = 0;
    while i < names.len()
        invariant
            0 <= i <= names@.len(),
            texts == Seq::new(names@.len(), |i: int| names@[i]@),
            forall|k: int| 0 <= k < i ==> texts[k] != name@,
        decreases names@.len() - i,
    {
        if same_text(names[i].as_str(), name) {
            assert(texts[i as int] == name@);
            return true;
        }
        i = i + 1;
    }
    false
}

/// Switches off what is not given of `exporter`, and gives it an empty map
/// where it has no fields.
fn settle(exporter: &mut ConfigExporter)
    requires
        old(exporter).wf(),
    ensures
        final(exporter).wf(),
        final(exporter)@ == settled(old(exporter)@),
{
    if exporter.verbose.is_none() {
        exporter.verbose = Some(false);
    }
    if exporter.enabled.is_none() {
        exporter.enabled = Some(false);
    }
    if exporter.fields.is_none() {
        exporter.fields = Some(FieldMap::new());
    }
}

impl Config {
    /// Whether every exporter, where given, is well formed.
    pub open spec fn wf(&self) -> bool {
        self.exporters matches Some(list) ==> all_wf(list@)
    }

    /// Whether `from` can fill these settings: it lists exporters, and where
    /// these settings list some too, all of both have a name.
    pub open spec fn can_fill_from(&self, from: &Config) -> bool {
        &&& from.exporters.is_some()
        &&& self.exporters.is_some() ==> all_named(self@.exporters.unwrap()) && all_named(
            from@.exporters.unwrap(),
        )
    }

    /// Takes from `from` what these settings lack.
    pub fn back_fill(&mut self, from: &Config)
        requires
            old(self).wf(),
            from.wf(),
            old(self).can_fill_from(from),
        ensures
            final(self).wf(),
            final(self)@ == back_filled(old(self)@, from@),
    {
        if self.number_of_entries.is_none() {
            self.number_of_entries = from.number_of_entries;
        }
        if self.timestamp_format.is_none() {
            self.timestamp_format = clone_text(&from.timestamp_format);
        }
        if self.use_now_as_timestamp.is_none() {
            self.use_now_as_timestamp = from.use_now_as_timestamp;
        }
        if self.generation_duration.is_none() {
            self.generation_duration = clone_text(&from.generation_duration);
        }
        if self.start_timestamp.is_none() {
            self.start_timestamp = clone_text(&from.start_timestamp);
        }
        if self.distribution_by.is_none() {
            self.distribution_by = clone_text(&from.distribution_by);
        }
        let theirs: &Vec<ConfigExporter> = from.exporters.as_ref().unwrap();
        let ghost given = exporter_views(theirs@);
        match &mut self.exporters {
            None => {
                let mut list: Vec<ConfigExporter> = Vec::new();
                let mut i: usize = 0;
                while i < theirs.len()
                    invariant
                        0 <= i <= theirs@.len(),
                        all_wf(theirs@),
                        all_wf(list@),
                        given == exporter_views(theirs@),
                        list@.len() == i,
                        forall|k: int|
                            0 <= k < i ==> (#[trigger] list@[k])@ == filled_from(
                                switched_off(),
                                given[k],
                            ),
                    decreases theirs@.len() - i,
                {
                    let mut exporter = ConfigExporter {
                        name: None,
                        verbose: Some(false),
                        enabled: Some(false),
                        fields: Some(FieldMap::new()),
                    };
                    assert(theirs@[i as int].wf());
                    exporter.back_fill(&theirs[i]);
                    list.push(exporter);
                    i = i + 1;
                }
                proof {
                    assert(exporter_views(list@) =~= merged_exporters(None, given));
                }
                self.exporters = Some(list);
            },
            Some(mine) => {
                let ghost before = mine@;
                let ghost own = exporter_views(before);
                let count: usize = mine.len();
                let mut names: Vec<String> = Vec::new();
                let mut i: usize = 0;
                while i < count
                    invariant
                        0 <= i <= count,
                        count == before.len(),
                        mine@.len() == count,
                        own == exporter_views(before),
                        all_named(own),
                        all_wf(mine@),
                        names@.len() == i,
                        forall|k: int|
                            0 <= k < i ==> (#[trigger] names@[k])@ == own[k].name.unwrap(),
                        forall|k: int| 0 <= k < i ==> (#[trigger] mine@[k])@ == settled(own[k]),
                        forall|k: int| i <= k < count ==> (#[trigger] mine@[k]) == before[k],
                    decreases count - i,
                {
                    assert(own[i as int].name.is_some());
                    assert(mine@[i as int] == before[i as int]);
                    names.push(mine[i].name.as_ref().unwrap().clone());
                    settle(&mut mine[i]);
                    i = i + 1;
                }
                let ghost named = Seq::new(names@.len(), |k: int| names@[k]@);
                let ghost kept = Seq::new(own.len(), |k: int| settled(own[k]));
                proof {
                    assert(named =~= names_of(own));
                    assert(exporter_views(mine@) =~= kept + missing_from(named, given.take(0)));
                }
                let mut j: usize = 0;
                while j < theirs.len()
                    invariant
                        0 <= j <= theirs@.len(),
                        all_wf(theirs@),
                        all_wf(mine@),
                        given == exporter_views(theirs@),
                        all_named(given),
                        named == Seq::new(names@.len(), |k: int| names@[k]@),
                        exporter_views(mine@) == kept + missing_from(named, given.take(j as int)),
                    decreases theirs@.len() - j,
                {
                    proof {
                        assert(given.take(j + 1).drop_last() =~= given.take(j as int));
                        assert(given.take(j + 1).last() == given[j as int]);
                        assert(given[j as int].name.is_some());
                        assert(theirs@[j as int].wf());
                    }
                    if !names_contain(&names, theirs[j].name.as_ref().unwrap().as_str()) {
                        let mut exporter = ConfigExporter {
                            name: None,
                            verbose: None,
                            enabled: None,
                            fields: Some(FieldMap::new()),
                        };
                        exporter.back_fill(&theirs[j]);
                        let ghost listed = mine@;
                        mine.push(exporter);
                        proof {
                            assert(exporter_views(mine@) =~= exporter_views(listed).push(
                                exporter@,
                            ));
                            assert(exporter_views(mine@) =~= kept + missing_from(
                                named,
                                given.take(j + 1),
                            ));
                        }
                    }
                    j = j + 1;
                }
                proof {
                    assert(given.take(j as int) =~= given);
                }
            },
        }
    }
}

} // verus!
