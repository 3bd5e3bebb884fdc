//! The texts of the tray menu, and what the menu shows for a running or stopped
//! service.
use crate::text::{append_str, string_from_chars};
use vstd::prelude::*;

verus! {

/// The fixed texts of the tray menu.
#[derive(Clone, Copy, Debug)]
pub struct TrayText {
    pub status_prefix: &'static str,
    pub listen_prefix: &'static str,
    pub running: &'static str,
    pub stopped: &'static str,
    pub show: &'static str,
    pub hide: &'static str,
    pub start_service: &'static str,
    pub stop_service: &'static str,
    pub restart_service: &'static str,
    pub clear_cache: &'static str,
    pub quit: &'static str,
}

/// The fixed texts of the tray menu.
pub fn tray_text() -> (t: TrayText)
    ensures
        t.status_prefix@ == "Status: "@,
        t.listen_prefix@ == "Listen: "@,
        t.running@ == "Running"@,
        t.stopped@ == "Stopped"@,
        t.show@ == "Show window"@,
        t.hide@ == "Hide window"@,
        t.start_service@ == "Start service"@,
        t.stop_service@ == "Stop service"@,
        t.restart_service@ == "Restart service"@,
        t.clear_cache@ == "Clear DNS cache"@,
        t.quit@ == "Quit"@,
{
    TrayText {
        status_prefix: "Status: ",
        listen_prefix: "Listen: ",
        running: "Running",
        stopped: "Stopped",
        show: "Show window",
        hide: "Hide window",
        start_service: "Start service",
        stop_service: "Stop service",
        restart_service: "Restart service",
        clear_cache: "Clear DNS cache",
        quit: "Quit",
    }
}

/// What the tray menu shows for the service.
#[derive(Clone, Debug)]
pub struct TrayLabels {
    pub status: String,
    pub listen: String,
    pub toggle_service: String,
    pub restart_enabled: bool,
    pub clear_cache_enabled: bool,
    pub tooltip: String,
}

/// The listen address as the menu shows it: `-` when there is none.
pub open spec fn shown_listen(listen: Seq<char>) -> Seq<char> {
    if listen.len() == 0 {
        "-"@
    } else {
        listen
    }
}

/// What the tray menu shows for a running or stopped service listening at `listen`.
pub fn tray_labels(running: bool, listen: &str) -> (l: TrayLabels)
    ensures
        l.status@ == "Status: "@ + if running { "Running"@ } else { "Stopped"@ },
        l.listen@ == "Listen: "@ + shown_listen(listen@),
        l.toggle_service@ == if running { "Stop service"@ } else { "Start service"@ },
        l.restart_enabled == running,
        l.clear_cache_enabled == running,
        l.tooltip@ == if running { "Running · "@ + shown_listen(listen@) } else { "Stopped"@ },
{
    let text = tray_text();
    let shown = if listen.is_empty() {
        "-"
    } else {
        listen
    };
    let mut status: Vec<char> = Vec::new();
    append_str(&mut status, text.status_prefix);
    append_str(&mut status, if running { text.running } else { text.stopped });
    let mut listen_line: Vec<char> = Vec::new();
    append_str(&mut listen_line, text.listen_prefix);
    append_str(&mut listen_line, shown);
    let mut tooltip: Vec<char> = Vec::new();
    if running {
        append_str(&mut tooltip, text.running);
        append_str(&mut tooltip, " · ");
        append_str(&mut tooltip, shown);
    } else {
        append_str(&mut tooltip, text.stopped);
    }
    proof {
        reveal_strlit("Running · ");
        reveal_strlit("Running");
        reveal_strlit(" · ");
    }
    TrayLabels {
        status: string_from_chars(status.as_slice()),
        listen: string_from_chars(listen_line.as_slice()),
        toggle_service: (if running { text.stop_service } else { text.start_service }).to_owned(),
        restart_enabled: running,
        clear_cache_enabled: running,
        tooltip: string_from_chars(tooltip.as_slice()),
    }
}

} // verus!
