//! The values that a run uses where the command line gives none.

use vstd::prelude::*;
use vstd::string::*;

verus! {

/// The trainee, friend card, inheritance and seed of a run.
#[derive(Clone, Copy, Debug)]
pub struct BenchDefaults {
    pub uma: u32,
    pub friend: u32,
    pub blue_count: [i32; 5],
    pub extra_count: [i32; 6],
    pub seed: u64,
}

/// `BenchDefaults` with its arrays as sequences.
#[verifier::ext_equal]
pub struct DefaultsModel {
    pub uma: u32,
    pub friend: u32,
    pub blue_count: Seq<i32>,
    pub extra_count: Seq<i32>,
    pub seed: u64,
}

impl View for BenchDefaults {
    type V = DefaultsModel;

    open spec fn view(&self) -> DefaultsModel {
        DefaultsModel {
            uma: self.uma,
            friend: self.friend,
            blue_count: self.blue_count@,
            extra_count: self.extra_count@,
            seed: self.seed,
        }
    }
}

/// The built-in defaults.
pub open spec fn builtin() -> DefaultsModel {
    DefaultsModel {
        uma: 102601,
        friend: 303054,
        blue_count: seq![15, 0, 0, 0, 3],
        extra_count: seq![10, 10, 20, 20, 20, 40],
        seed: 61444,
    }
}

/// The built-in trainee.
pub fn default_uma() -> (r: u32)
    ensures
        r == builtin().uma,
        r == 102601,
{
    102601
}

/// The built-in friend card.
pub fn default_friend() -> (r: u32)
    ensures
        r == builtin().friend,
        r == 303054,
{
    303054
}

/// The built-in counts of inherited blue factors.
pub fn default_blue() -> (r: [i32; 5])
    ensures
        r@ == builtin().blue_count,
        r@ == seq![15i32, 0, 0, 0, 3],
{
    [15, 0, 0, 0, 3]
}

/// The built-in counts of further inherited factors.
pub fn default_extra() -> (r: [i32; 6])
    ensures
        r@ == builtin().extra_count,
        r@ == seq![10i32, 10, 20, 20, 20, 40],
{
    [10, 10, 20, 20, 20, 40]
}

/// The built-in base seed.
pub fn default_seed() -> (r: u64)
    ensures
        r == builtin().seed,
        r == 61444,
{
    61444
}

impl Default for BenchDefaults {
    fn default() -> (r: Self)
        ensures
            r@ == builtin(),
    {
        BenchDefaults {
            uma: default_uma(),
            friend: default_friend(),
            blue_count: default_blue(),
            extra_count: default_extra(),
            seed: default_seed(),
        }
    }
}

/// The fields that a configuration file gives. A field that it does not name is
/// `None`.
#[derive(Clone, Copy, Debug)]
pub struct ConfigFields {
    pub uma: Option<u32>,
    pub friend: Option<u32>,
    pub blue_count: Option<[i32; 5]>,
    pub extra_count: Option<[i32; 6]>,
    pub seed: Option<u64>,
}

/// What became of the configuration file.
#[derive(Clone, Copy, Debug)]
pub enum ConfigSource {
    /// There is no such file.
    Absent,
    /// The file does not hold valid settings.
    Malformed,
    /// The file was read.
    Read { fields: ConfigFields },
}

/// The defaults that the fields of a file give: each field that it names, and the
/// built-in value of each other.
pub open spec fn with_fields(fields: ConfigFields) -> DefaultsModel {
    DefaultsModel {
        uma: match fields.uma {
            Some(v) => v,
            None => builtin().uma,
        },
        friend: match fields.friend {
            Some(v) => v,
            None => builtin().friend,
        },
        blue_count: match fields.blue_count {
            Some(v) => v@,
            None => builtin().blue_count,
        },
        extra_count: match fields.extra_count {
            Some(v) => v@,
            None => builtin().extra_count,
        },
        seed: match fields.seed {
            Some(v) => v,
            None => builtin().seed,
        },
    }
}

/// The defaults of a run.
pub open spec fn defaults_from(source: ConfigSource) -> DefaultsModel {
    match source {
        ConfigSource::Absent => builtin(),
        ConfigSource::Malformed => builtin(),
        ConfigSource::Read { fields } => with_fields(fields),
    }
}

/// The warning about a configuration file that does not hold valid settings.
pub open spec fn malformed_wording(path: Seq<char>) -> Seq<char> {
    "警告: bench_config.toml 解析失败（"@ + path + "），使用内置默认值"@
}

/// The defaults of a run, and a warning where the file is there but unusable.
pub struct LoadedDefaults {
    pub defaults: BenchDefaults,
    pub warning: Option<String>,
}

/// Decides the defaults of a run from what became of the configuration file at
/// `path`.
pub fn load_bench_defaults(source: &ConfigSource, path: &str) -> (r: LoadedDefaults)
    ensures
        r.defaults@ == defaults_from(*source),
        r.warning is Some <==> *source is Malformed,
        r.warning matches Some(text) ==> text@ == malformed_wording(path@),
        *source matches ConfigSource::Read { fields } ==> {
            &&& fields.uma matches Some(v) ==> r.defaults.uma == v
            &&& fields.friend matches Some(v) ==> r.defaults.friend == v
            &&& fields.blue_count matches Some(v) ==> r.defaults.blue_count@ == v@
            &&& fields.extra_count matches Some(v) ==> r.defaults.extra_count@ == v@
            &&& fields.seed matches Some(v) ==> r.defaults.seed == v
        },
{
    match source {
        ConfigSource::Absent => LoadedDefaults {
            defaults: BenchDefaults::default(),
            warning: None,
        },
        ConfigSource::Malformed => {
            let mut text = String::new();
            text.append("警告: bench_config.toml 解析失败（");
            text.append(path);
            text.append("），使用内置默认值");
            LoadedDefaults { defaults: BenchDefaults::default(), warning: Some(text) }
        },
        ConfigSource::Read { fields } => {
            let defaults = BenchDefaults {
                uma: match fields.uma {
                    Some(v) => v,
                    None => default_uma(),
                },
                friend: match fields.friend {
                    Some(v) => v,
                    None => default_friend(),
                },
                blue_count: match fields.blue_count {
                    Some(v) => v,
                    None => default_blue(),
                },
                extra_count: match fields.extra_count {
                    Some(v) => v,
                    None => default_extra(),
                },
                seed: match fields.seed {
                    Some(v) => v,
                    None => default_seed(),
                },
            };
            LoadedDefaults { defaults, warning: None }
        },
    }
}

/// A file that names none of the fields, an unusable file and no file at all lead
/// to the same defaults.
pub proof fn law_empty_config_is_builtin(fields: ConfigFields)
    requires
        fields.uma is None,
        fields.friend is None,
        fields.blue_count is None,
        fields.extra_count is None,
        fields.seed is None,
    ensures
        defaults_from(ConfigSource::Read { fields }) == defaults_from(ConfigSource::Absent),
        defaults_from(ConfigSource::Malformed) == defaults_from(ConfigSource::Absent),
{
}

/// Each field on its own, whatever the others are: where a file that was read gives it a
/// value, that value is the default of the run; where none was read, or the one that was
/// leaves the field out, the default is the built-in one.
pub proof fn law_each_field_counts_on_its_own(source: ConfigSource)
    ensures
        ({
            let defaults = defaults_from(source);
            match source {
                ConfigSource::Read { fields } => {
                    &&& fields.uma matches Some(v) ==> defaults.uma == v
                    &&& fields.uma is None ==> defaults.uma == 102601
                    &&& fields.friend matches Some(v) ==> defaults.friend == v
                    &&& fields.friend is None ==> defaults.friend == 303054
                    &&& fields.blue_count matches Some(v) ==> defaults.blue_count == v@
                    &&& fields.blue_count is None ==> defaults.blue_count == seq![15i32, 0, 0, 0, 3]
                    &&& fields.extra_count matches Some(v) ==> defaults.extra_count == v@
                    &&& fields.extra_count is None ==> defaults.extra_count == seq![
                        10i32,
                        10,
                        20,
                        20,
                        20,
                        40,
                    ]
                    &&& fields.seed matches Some(v) ==> defaults.seed == v
                    &&& fields.seed is None ==> defaults.seed == 61444
                },
                _ => {
                    &&& defaults.uma == 102601
                    &&& defaults.friend == 303054
                    &&& defaults.blue_count == seq![15i32, 0, 0, 0, 3]
                    &&& defaults.extra_count == seq![10i32, 10, 20, 20, 20, 40]
                    &&& defaults.seed == 61444
                },
            }
        }),
{
}

/// Two files that were read and name a field differently lead to defaults that differ
/// in it, whatever else the files hold.
pub proof fn law_different_files_lead_to_different_defaults(a: ConfigFields, b: ConfigFields)
    ensures
        ({
            let one = defaults_from(ConfigSource::Read { fields: a });
            let two = defaults_from(ConfigSource::Read { fields: b });
            &&& a.uma is Some && b.uma is Some && a.uma != b.uma ==> one.uma != two.uma
            &&& a.friend is Some && b.friend is Some && a.friend != b.friend ==> one.friend
                != two.friend
            &&& a.blue_count is Some && b.blue_count is Some && a.blue_count->Some_0@
                != b.blue_count->Some_0@ ==> one.blue_count != two.blue_count
            &&& a.extra_count is Some && b.extra_count is Some && a.extra_count->Some_0@
                != b.extra_count->Some_0@ ==> one.extra_count != two.extra_count
            &&& a.seed is Some && b.seed is Some && a.seed != b.seed ==> one.seed != two.seed
        }),
{
}

/// The warning about an unusable file names its path between two fixed texts, so that
/// warnings about different files differ.
pub proof fn law_warning_names_the_file(path: Seq<char>, other: Seq<char>)
    ensures
        ({
            let front = "警告: bench_config.toml 解析失败（"@;
            let back = "），使用内置默认值"@;
            let text = malformed_wording(path);
            &&& text.len() == front.len() + path.len() + back.len()
            &&& text.take(front.len() as int) == front
            &&& text.skip(front.len() as int).take(path.len() as int) == path
            &&& text.skip((front.len() + path.len()) as int) == back
        }),
        path != other ==> malformed_wording(path) != malformed_wording(other),
{
    let front = "警告: bench_config.toml 解析失败（"@;
    let back = "），使用内置默认值"@;
    let text = malformed_wording(path);
    let n = front.len() as int;
    assert(text.take(n) =~= front);
    assert(text.skip(n).take(path.len() as int) =~= path);
    assert(text.skip(n + path.len()) =~= back);
    let rest = malformed_wording(other);
    assert(rest.skip(n).take(other.len() as int) =~= other);
    if text == rest {
        assert(path.len() == other.len());
    }
}

/// The model of the defaults holds each of them as it is.
pub proof fn law_defaults_model_is_faithful(defaults: BenchDefaults)
    ensures
        defaults@.uma == defaults.uma,
        defaults@.friend == defaults.friend,
        defaults@.blue_count == defaults.blue_count@,
        defaults@.extra_count == defaults.extra_count@,
        defaults@.seed == defaults.seed,
{
}

} // verus!
