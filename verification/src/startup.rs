//! What the timeline screens start with: the timeline to show, with every
//! period and event given an id, and the name of the selected timeline.
use crate::timeline::{all_ids_present, timeline_ids_filled, PeriodModel, Routine, Yaml, YamlModel};
use vstd::prelude::*;

verus! {

/// The empty timeline (`Yaml::default()`): empty name and date of birth,
/// life expectancy 0, no periods and no routines.
pub open spec fn empty_timeline_model() -> YamlModel {
    YamlModel {
        name: Seq::empty(),
        date_of_birth: Seq::empty(),
        life_expectancy: 0,
        periods: Seq::<PeriodModel>::empty(),
        routines: Seq::<Routine>::empty(),
    }
}

/// The timeline the screens start from before ids are filled in: the stored
/// one when it loaded, the empty timeline otherwise.
pub open spec fn starting_model(loaded: Option<YamlModel>) -> YamlModel {
    match loaded {
        Some(y) => y,
        None => empty_timeline_model(),
    }
}

/// The name of the timeline selected at start: "Shared Timeline" when a
/// shared timeline was passed in, "default" otherwise.
pub open spec fn starting_selection(shared: Seq<char>) -> Seq<char> {
    if shared.len() == 0 {
        "default"@
    } else {
        "Shared Timeline"@
    }
}

/// The decisions taken when the timeline screens start.
pub struct StartState {
    /// The timeline to show, every period and event with an id.
    pub yaml: Yaml,
    /// The name of the selected timeline.
    pub selected_yaml: String,
    /// The stored timeline could not be loaded, so the empty timeline is
    /// saved in its place first.
    pub save_default_first: bool,
}

/// What the timeline screens start with, once the stored timeline has been
/// read (`None` when reading it failed): fall back to the empty timeline, give every period
/// and event without an id a fresh one, and select "Shared Timeline" when
/// `shared` is not empty. The new ids come from the random source.
pub fn start_state(loaded: Option<Yaml>, shared: &str) -> (r: StartState)
    ensures
        r.save_default_first == (loaded is None),
        timeline_ids_filled(
            starting_model(
                match loaded {
                    Some(y) => Some(y@),
                    None => None,
                },
            ),
            r.yaml@,
        ),
        all_ids_present(r.yaml@),
        r.selected_yaml@ == starting_selection(shared@),
{
    let save_default_first = loaded.is_none();
    let mut yaml = match loaded {
        Some(y) => y,
        None => Yaml::default(),
    };
    yaml.assign_ids();
    let selected_yaml = if shared.unicode_len() == 0 {
        String::from_str("default")
    } else {
        String::from_str("Shared Timeline")
    };
    StartState { yaml, selected_yaml, save_default_first }
}

} // verus!
