//! The built-in apps and how they are found by name.
use vstd::prelude::*;
use crate::text::str_eq;

pub mod calculator;
pub mod snake;

verus! {

/// The names of the built-in apps, in the order they are listed.
pub open spec fn app_names() -> Seq<Seq<char>> {
    seq!["Calculator"@, "Notes"@, "Clock"@, "Snake"@]
}

/// The built-in apps.
pub fn list() -> (r: [&'static str; 4])
    ensures
        r@.map_values(|s: &str| s@) == app_names(),
{
    let r = ["Calculator", "Notes", "Clock", "Snake"];
    assert(r@.map_values(|s: &str| s@) =~= app_names());
    r
}

/// A built-in app.
#[derive(Clone, Copy, Debug, PartialEq, Eq, Structural)]
pub enum App {
    Calculator,
    Notes,
    Clock,
    Snake,
}

/// The app a name launches: its listed name or that name in lower case.
pub open spec fn app_named_spec(name: Seq<char>) -> Option<App> {
    if name == "Calculator"@ || name == "calculator"@ {
        Some(App::Calculator)
    } else if name == "Notes"@ || name == "notes"@ {
        Some(App::Notes)
    } else if name == "Clock"@ || name == "clock"@ {
        Some(App::Clock)
    } else if name == "Snake"@ || name == "snake"@ {
        Some(App::Snake)
    } else {
        None
    }
}

/// The app `name` launches, if any.
pub fn app_named(name: &str) -> (r: Option<App>)
    ensures
        r == app_named_spec(name@),
{
    if str_eq(name, "Calculator") || str_eq(name, "calculator") {
        Some(App::Calculator)
    } else if str_eq(name, "Notes") || str_eq(name, "notes") {
        Some(App::Notes)
    } else if str_eq(name, "Clock") || str_eq(name, "clock") {
        Some(App::Clock)
    } else if str_eq(name, "Snake") || str_eq(name, "snake") {
        Some(App::Snake)
    } else {
        None
    }
}

} // verus!
pub mod clock;
pub mod notes;
