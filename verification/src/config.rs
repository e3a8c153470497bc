//! Configuration managers: where a configuration file is read from and which
//! files of the data folder are configurations, on the desktop (files under a
//! data folder) and in the browser (a single built-in configuration).
use crate::paths::{
    extension_of, file_name_of, file_stem_of, join_path, path_extension, path_file_name, path_file_stem,
    path_joined,
};
use crate::text::{push_str, str_equals};
use crate::timeline::{make_period, plain_period, Routine, Yaml, YamlModel};
use vstd::prelude::*;

verus! {

/// The file names, in listing order, of the listed paths whose extension is
/// `yaml`.
pub open spec fn yaml_names(paths: Seq<Seq<char>>) -> Seq<Seq<char>>
    decreases paths.len(),
{
    if paths.len() == 0 {
        Seq::empty()
    } else {
        let rest = yaml_names(paths.drop_last());
        let p = paths.last();
        if extension_of(p) == Some("yaml"@) && file_name_of(p) is Some {
            rest.push(file_name_of(p)->0)
        } else {
            rest
        }
    }
}

/// The file stems, in listing order, of the listed paths whose extension is
/// `yaml`.
pub open spec fn yaml_stems(paths: Seq<Seq<char>>) -> Seq<Seq<char>>
    decreases paths.len(),
{
    if paths.len() == 0 {
        Seq::empty()
    } else {
        let rest = yaml_stems(paths.drop_last());
        let p = paths.last();
        if extension_of(p) == Some("yaml"@) && file_stem_of(p) is Some {
            rest.push(file_stem_of(p)->0)
        } else {
            rest
        }
    }
}

/// The texts of a list of strings.
pub open spec fn texts(v: Seq<String>) -> Seq<Seq<char>> {
    v.map_values(|s: String| s@)
}

/// A source of configurations.
pub trait ConfigManager {
    /// The path a configuration file is read from and written to, or `None`
    /// when configurations are not files (the built-in one is used).
    fn config_file(&self, yaml_file: &str) -> Option<String>;

    /// The configuration names available, given the data folder's listing
    /// (the paths of its entries).
    fn get_available_configs(&self, entries: &Vec<String>) -> Vec<String>;
}

/// Configurations stored as YAML files in a data folder.
#[derive(Debug, Clone)]
pub struct NativeConfigManager {
    data_folder: String,
}

impl NativeConfigManager {
    /// The data folder.
    pub closed spec fn folder(&self) -> Seq<char> {
        self.data_folder@
    }

    /// A manager for the configurations under `data_folder`.
    pub fn new(data_folder: String) -> (r: NativeConfigManager)
        ensures
            r.folder() == data_folder@,
    {
        NativeConfigManager { data_folder }
    }

    /// The data folder.
    pub fn data_folder(&self) -> (r: String)
        ensures
            r@ == self.folder(),
    {
        self.data_folder.clone()
    }
}

/// Whether `p` has the extension `yaml`.
fn has_yaml_extension(p: &str) -> (r: bool)
    ensures
        r == (extension_of(p@) == Some("yaml"@)),
{
    match path_extension(p) {
        Some(e) => str_equals(e.as_str(), "yaml"),
        None => false,
    }
}

impl ConfigManager for NativeConfigManager {
    /// `<data folder>/<yaml_file>`.
    fn config_file(&self, yaml_file: &str) -> (r: Option<String>)
        ensures
            r matches Some(p) && p@ == path_joined(self.folder(), yaml_file@),
    {
        Some(join_path(self.data_folder.as_str(), yaml_file))
    }

    /// The file names of the entries with extension `yaml`, in listing order.
    fn get_available_configs(&self, entries: &Vec<String>) -> (r: Vec<String>)
        ensures
            texts(r@) == yaml_names(texts(entries@)),
    {
        let mut out: Vec<String> = Vec::new();
        let mut i: usize = 0;
        while i < entries.len()
            invariant
                i <= entries.len(),
                texts(out@) == yaml_names(texts(entries@.subrange(0, i as int))),
            decreases entries.len() - i,
        {
            let p = entries[i].as_str();
            let ghost prefix = texts(entries@.subrange(0, i as int));
            proof {
                assert(texts(entries@.subrange(0, i + 1)) =~= prefix.push(p@));
                assert(prefix.push(p@).drop_last() =~= prefix);
            }
            if has_yaml_extension(p) {
                match path_file_name(p) {
                    Some(name) => {
                        out.push(name);
                        proof {
                            assert(texts(out@) =~= yaml_names(prefix).push(file_name_of(p@)->0));
                        }
                    },
                    None => {},
                }
            }
            i = i + 1;
        }
        proof {
            assert(entries@.subrange(0, entries.len() as int) =~= entries@);
        }
        out
    }
}

/// The browser's configuration source: one built-in configuration.
#[derive(Debug, Clone, Copy)]
pub struct WasmConfigManager;

impl ConfigManager for WasmConfigManager {
    /// Configurations are not files here.
    fn config_file(&self, yaml_file: &str) -> (r: Option<String>)
        ensures
            r is None,
    {
        None
    }

    /// Only the built-in configuration, named `Default`.
    fn get_available_configs(&self, entries: &Vec<String>) -> (r: Vec<String>)
        ensures
            texts(r@) == seq!["Default"@],
    {
        let mut name = String::new();
        push_str(&mut name, "Default");
        let mut out: Vec<String> = Vec::new();
        out.push(name);
        proof {
            assert(texts(out@) =~= seq!["Default"@]);
        }
        out
    }
}

impl WasmConfigManager {
    /// The built-in configuration, whatever file is asked for.
    pub fn load_config(&self, yaml_file: &str) -> (r: Yaml)
        ensures
            r@ == default_config_model(),
    {
        get_default_config()
    }
}

/// The configuration manager of the desktop build: files under `data`.
pub fn get_config_manager() -> (r: NativeConfigManager)
    ensures
        r.folder() == "data"@,
{
    let mut folder = String::new();
    push_str(&mut folder, "data");
    NativeConfigManager::new(folder)
}

/// The configuration names of the desktop build, given the data folder's
/// listing: the `.yaml` files among the entries.
pub fn get_available_configs(entries: &Vec<String>) -> (r: Vec<String>)
    ensures
        texts(r@) == yaml_names(texts(entries@)),
{
    let manager = get_config_manager();
    manager.get_available_configs(entries)
}

/// The timelines to offer (`get_available_timelines` of the timeline
/// manager), given the listing of the timelines folder or `None` when it
/// cannot be read: the stems of the `.yaml` files, or just `default`.
pub fn available_timelines(listing: Option<&Vec<String>>) -> (r: Vec<String>)
    ensures
        listing matches Some(entries) ==> texts(r@) == yaml_stems(texts(entries@)),
        listing is None ==> texts(r@) == seq!["default"@],
{
    match listing {
        None => {
            let mut name = String::new();
            push_str(&mut name, "default");
            let mut out: Vec<String> = Vec::new();
            out.push(name);
            proof {
                assert(texts(out@) =~= seq!["default"@]);
            }
            out
        },
        Some(entries) => {
            let mut out: Vec<String> = Vec::new();
            let mut i: usize = 0;
            while i < entries.len()
                invariant
                    i <= entries.len(),
                    texts(out@) == yaml_stems(texts(entries@.subrange(0, i as int))),
                decreases entries.len() - i,
            {
                let p = entries[i].as_str();
                let ghost prefix = texts(entries@.subrange(0, i as int));
                proof {
                    assert(texts(entries@.subrange(0, i + 1)) =~= prefix.push(p@));
                    assert(prefix.push(p@).drop_last() =~= prefix);
                }
                if has_yaml_extension(p) {
                    match path_file_stem(p) {
                        Some(stem) => {
                            out.push(stem);
                            proof {
                                assert(texts(out@) =~= yaml_stems(prefix).push(file_stem_of(p@)->0));
                            }
                        },
                        None => {},
                    }
                }
                i = i + 1;
            }
            proof {
                assert(entries@.subrange(0, entries.len() as int) =~= entries@);
            }
            out
        },
    }
}

/// The choices of the timeline selector: the available timelines, or just
/// `default` when there are none.
pub fn timeline_choices(available: &Vec<String>) -> (r: Vec<String>)
    ensures
        available@.len() == 0 ==> texts(r@) == seq!["default"@],
        available@.len() > 0 ==> texts(r@) == texts(available@),
{
    if available.len() == 0 {
        let mut name = String::new();
        push_str(&mut name, "default");
        let mut out: Vec<String> = Vec::new();
        out.push(name);
        proof {
            assert(texts(out@) =~= seq!["default"@]);
        }
        out
    } else {
        let mut out: Vec<String> = Vec::new();
        let mut i: usize = 0;
        while i < available.len()
            invariant
                i <= available@.len(),
                texts(out@) == texts(available@.subrange(0, i as int)),
            decreases available.len() - i,
        {
            let name = available[i].clone();
            let ghost before = out@;
            out.push(name);
            proof {
                assert(name@ == available@[i as int]@);
                assert(texts(available@.subrange(0, i + 1)) =~= texts(available@.subrange(0, i as int)).push(name@));
                assert(texts(out@) =~= texts(before).push(name@));
            }
            i = i + 1;
        }
        proof {
            assert(available@.subrange(0, available@.len() as int) =~= available@);
        }
        out
    }
}

/// `s` ends with `suffix`.
pub open spec fn ends_with(s: Seq<char>, suffix: Seq<char>) -> bool {
    suffix.len() <= s.len() && s.subrange(s.len() - suffix.len(), s.len() as int) == suffix
}

/// The key names a YAML document: it ends with `.yaml` or `.yml`.
pub open spec fn is_yaml_key(key: Seq<char>) -> bool {
    ends_with(key, ".yaml"@) || ends_with(key, ".yml"@)
}

/// Whether `s` ends with `suffix`.
fn has_suffix(s: &str, suffix: &str) -> (r: bool)
    ensures
        r == ends_with(s@, suffix@),
{
    let n = s.unicode_len();
    let m = suffix.unicode_len();
    if m > n {
        return false;
    }
    let mut i: usize = 0;
    while i < m
        invariant
            n == s@.len(),
            m == suffix@.len(),
            m <= n,
            i <= m,
            forall|j: int| 0 <= j < i ==> s@[n - m + j] == suffix@[j],
        decreases m - i,
    {
        if s.get_char(n - m + i) != suffix.get_char(i) {
            proof {
                assert(s@.subrange(n - m, n as int)[i as int] != suffix@[i as int]);
            }
            return false;
        }
        i = i + 1;
    }
    proof {
        assert(s@.subrange(n - m, n as int) =~= suffix@);
    }
    true
}

/// The stored keys that hold YAML documents, in order (the browser
/// storage's listing).
pub fn yaml_keys(keys: &Vec<String>) -> (r: Vec<String>)
    ensures
        texts(r@) == texts(keys@).filter(|k: Seq<char>| is_yaml_key(k)),
{
    let ghost pred = |k: Seq<char>| is_yaml_key(k);
    let mut out: Vec<String> = Vec::new();
    let mut i: usize = 0;
    while i < keys.len()
        invariant
            i <= keys@.len(),
            pred == (|k: Seq<char>| is_yaml_key(k)),
            texts(out@) == texts(keys@.subrange(0, i as int)).filter(pred),
        decreases keys.len() - i,
    {
        let key = keys[i].as_str();
        let ghost prefix = texts(keys@.subrange(0, i as int));
        proof {
            assert(texts(keys@.subrange(0, i + 1)) =~= prefix.push(key@));
            prefix.lemma_filter_push(key@, pred);
        }
        if has_suffix(key, ".yaml") || has_suffix(key, ".yml") {
            let ghost before = out@;
            let k = keys[i].clone();
            out.push(k);
            proof {
                assert(texts(out@) =~= texts(before).push(key@));
            }
        }
        i = i + 1;
    }
    proof {
        assert(keys@.subrange(0, keys@.len() as int) =~= keys@);
    }
    out
}

/// The built-in configuration: John Doe, born 2000-01, expecting 80 years,
/// with four periods.
pub open spec fn default_config_model() -> YamlModel {
    YamlModel {
        name: "John Doe"@,
        date_of_birth: "2000-01"@,
        life_expectancy: 80,
        periods: seq![
            plain_period("Childhood"@, "2000-01"@, "#FFB3BA"@),
            plain_period("Teenage Years"@, "2013-01"@, "#BAFFC9"@),
            plain_period("Early Adulthood"@, "2018-01"@, "#BAE1FF"@),
            plain_period("Career Growth"@, "2023-01"@, "#FFFFBA"@),
        ],
        routines: Seq::empty(),
    }
}

/// The built-in configuration.
pub fn get_default_config() -> (r: Yaml)
    ensures
        r@ == default_config_model(),
{
    let mut periods = Vec::new();
    periods.push(make_period("Childhood", "2000-01", "#FFB3BA"));
    periods.push(make_period("Teenage Years", "2013-01", "#BAFFC9"));
    periods.push(make_period("Early Adulthood", "2018-01", "#BAE1FF"));
    periods.push(make_period("Career Growth", "2023-01", "#FFFFBA"));
    let mut name = String::new();
    push_str(&mut name, "John Doe");
    let mut date_of_birth = String::new();
    push_str(&mut date_of_birth, "2000-01");
    let r = Yaml {
        name,
        date_of_birth,
        life_expectancy: 80,
        life_periods: periods,
        routines: Vec::new(),
    };
    proof {
        assert(r@.periods =~= default_config_model().periods);
        assert(r@.routines =~= Seq::<Routine>::empty());
    }
    r
}

} // verus!
