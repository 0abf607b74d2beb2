//! Contextual tips shown after a flow is created, started or stopped.

use vstd::prelude::*;

use crate::text::same_text;

verus! {

/// The moment a tip is shown.
pub enum TipEvent {
    Create,
    On,
    Off,
}

/// The texts of a list of string slices.
pub open spec fn str_views(v: Seq<&str>) -> Seq<Seq<char>> {
    v.map_values(|s: &str| s@)
}

/// The tips shown after a flow is created on the system `os`.
pub open spec fn create_tips_text(os: Seq<char>, termux: bool) -> Seq<Seq<char>> {
    seq![
        "You can update any part of this flow later with 'progflow edit <name>'."@,
        "Add multiple start commands to launch your database, dev server, and more at once!"@,
        "Use the --urls flag to provide a comma-separated list of URLs to open automatically."@,
        "Keep your tool fresh! Run 'progflow update' periodically to get the latest features."@,
    ] + if os == "linux"@ {
        if termux {
            seq!["In Termux, you can use 'termux-boot' to run progflow on startup."@]
        } else {
            seq![
                "Create a .desktop file to launch your favorite flow from your application menu."@,
            ]
        }
    } else if os == "macos"@ {
        seq![
            "Use Automator to create a 'Quick Action' for this flow and assign it a global hotkey."@,
        ]
    } else {
        Seq::<Seq<char>>::empty()
    }
}

/// The tips shown after a flow starts on the system `os`.
pub open spec fn on_tips_text(os: Seq<char>, termux: bool) -> Seq<Seq<char>> {
    seq![
        "Use 'progflow logs <name>' to see the output of your background start commands."@,
        "Need to see what's running? 'progflow status' gives you a full breakdown."@,
        "You can add a quick note to this session with 'progflow on <name> --note \"working on X\"'."@,
        "New features are added regularly! Run 'progflow update' to stay current."@,
    ] + if os == "linux"@ {
        if termux {
            Seq::<Seq<char>>::empty()
        } else {
            seq![
                "Linux Tip: Set a keyboard shortcut (like Ctrl+Alt+P) to quickly activate your main flow."@,
            ]
        }
    } else if os == "macos"@ {
        seq![
            "macOS Tip: You can run progflow commands directly from Raycast or Alfred for faster switching."@,
        ]
    } else {
        Seq::<Seq<char>>::empty()
    }
}

/// The tips shown after a flow stops on the system `os`.
pub open spec fn off_tips_text(os: Seq<char>, termux: bool) -> Seq<Seq<char>> {
    seq![
        "Your last note is saved! It will be shown next time you run 'progflow on'."@,
        "Use 'progflow off --force' if you're in a hurry and want to skip the note prompt."@,
        "Progflow sends SIGTERM then SIGKILL to ensure all your processes are cleaned up properly."@,
        "Want the latest bug fixes? Run 'progflow update' before your next session."@,
    ] + if os == "linux"@ {
        if termux {
            Seq::<Seq<char>>::empty()
        } else {
            seq![
                "Linux Tip: Add 'progflow off' to your logout script to ensure all dev environments are closed."@,
            ]
        }
    } else if os == "macos"@ {
        seq![
            "macOS Tip: Use a 'Quit App' trigger in Shortcuts to run 'progflow off' automatically."@,
        ]
    } else {
        Seq::<Seq<char>>::empty()
    }
}

/// The tips shown after a flow is created on the system `os` (`linux`,
/// `macos`, ...), where `termux` tells whether it runs in Termux.
pub fn get_create_tips(os: &str, termux: bool) -> (r: Vec<&'static str>)
    ensures
        str_views(r@) == create_tips_text(os@, termux),
{
    let mut tips: Vec<&'static str> = Vec::new();
    tips.push("You can update any part of this flow later with 'progflow edit <name>'.");
    tips.push("Add multiple start commands to launch your database, dev server, and more at once!");
    tips.push("Use the --urls flag to provide a comma-separated list of URLs to open automatically.");
    tips.push("Keep your tool fresh! Run 'progflow update' periodically to get the latest features.");
    if same_text(os, "linux") {
        if termux {
            tips.push("In Termux, you can use 'termux-boot' to run progflow on startup.");
        } else {
            tips.push(
                "Create a .desktop file to launch your favorite flow from your application menu.",
            );
        }
    } else if same_text(os, "macos") {
        tips.push(
            "Use Automator to create a 'Quick Action' for this flow and assign it a global hotkey.",
        );
    }
    assert(str_views(tips@) =~= create_tips_text(os@, termux));
    tips
}

/// The tips shown after a flow starts on the system `os`.
pub fn get_on_tips(os: &str, termux: bool) -> (r: Vec<&'static str>)
    ensures
        str_views(r@) == on_tips_text(os@, termux),
{
    let mut tips: Vec<&'static str> = Vec::new();
    tips.push("Use 'progflow logs <name>' to see the output of your background start commands.");
    tips.push("Need to see what's running? 'progflow status' gives you a full breakdown.");
    tips.push(
        "You can add a quick note to this session with 'progflow on <name> --note \"working on X\"'.",
    );
    tips.push("New features are added regularly! Run 'progflow update' to stay current.");
    if same_text(os, "linux") {
        if !termux {
            tips.push(
                "Linux Tip: Set a keyboard shortcut (like Ctrl+Alt+P) to quickly activate your main flow.",
            );
        }
    } else if same_text(os, "macos") {
        tips.push(
            "macOS Tip: You can run progflow commands directly from Raycast or Alfred for faster switching.",
        );
    }
    assert(str_views(tips@) =~= on_tips_text(os@, termux));
    tips
}

/// The tips shown after a flow stops on the system `os`.
pub fn get_off_tips(os: &str, termux: bool) -> (r: Vec<&'static str>)
    ensures
        str_views(r@) == off_tips_text(os@, termux),
{
    let mut tips: Vec<&'static str> = Vec::new();
    tips.push("Your last note is saved! It will be shown next time you run 'progflow on'.");
    tips.push("Use 'progflow off --force' if you're in a hurry and want to skip the note prompt.");
    tips.push(
        "Progflow sends SIGTERM then SIGKILL to ensure all your processes are cleaned up properly.",
    );
    tips.push("Want the latest bug fixes? Run 'progflow update' before your next session.");
    if same_text(os, "linux") {
        if !termux {
            tips.push(
                "Linux Tip: Add 'progflow off' to your logout script to ensure all dev environments are closed.",
            );
        }
    } else if same_text(os, "macos") {
        tips.push(
            "macOS Tip: Use a 'Quit App' trigger in Shortcuts to run 'progflow off' automatically.",
        );
    }
    assert(str_views(tips@) =~= off_tips_text(os@, termux));
    tips
}

/// The tips for `event` on the system `os`.
pub open spec fn event_tips_text(event: TipEvent, os: Seq<char>, termux: bool) -> Seq<Seq<char>> {
    match event {
        TipEvent::Create => create_tips_text(os, termux),
        TipEvent::On => on_tips_text(os, termux),
        TipEvent::Off => off_tips_text(os, termux),
    }
}

/// The tips for `event` on the system `os`.
pub fn tips_for(event: TipEvent, os: &str, termux: bool) -> (r: Vec<&'static str>)
    ensures
        str_views(r@) == event_tips_text(event, os@, termux),
{
    match event {
        TipEvent::Create => get_create_tips(os, termux),
        TipEvent::On => get_on_tips(os, termux),
        TipEvent::Off => get_off_tips(os, termux),
    }
}

/// The tip at `now` modulo the number of tips, or none when there are none.
pub fn pick_tip(tips: Vec<&'static str>, now: u128) -> (r: Option<&'static str>)
    ensures
        tips@.len() == 0 ==> r is None,
        tips@.len() > 0 ==> r == Some(tips@[(now % (tips@.len() as u128)) as int]),
{
    if tips.len() == 0 {
        return None;
    }
    let index = (now % (tips.len() as u128)) as usize;
    Some(tips[index])
}

/// One of `tips`, chosen by the current time in microseconds, or none when
/// there are none.
pub fn select_random_tip(tips: Vec<&'static str>) -> (r: Option<&'static str>)
    ensures
        tips@.len() == 0 <==> r is None,
        r matches Some(t) ==> tips@.contains(t),
{
    let now = crate::clock::micros_since_epoch();
    let n = tips.len();
    let ghost v = tips@;
    let r = pick_tip(tips, now);
    proof {
        if n > 0 {
            let i = (now % (n as u128)) as int;
            assert(0 <= i < n);
            assert(v[i] == r->0);
        }
    }
    r
}

/// The line that shows a tip.
pub fn tip_line(tip: &str) -> (r: String)
    ensures
        r@ == "\n💡 Tip: "@ + tip@,
{
    let mut r = "\n💡 Tip: ".to_owned();
    r.append(tip);
    r
}

} // verus!
