//! What the terminal interface shows: panel titles, status marks, the help
//! text, and which console lines are visible.
use vstd::prelude::*;
use crate::config::{Project, ServiceConfig, ServiceStatus};
use crate::text::{concat2, concat3, decimal, owned, u64_to_decimal};

verus! {

/// The mark shown before a service for its status.
pub open spec fn status_mark(s: ServiceStatus) -> Seq<char> {
    match s {
        ServiceStatus::Running => "▶"@,
        ServiceStatus::Starting => "◐"@,
        ServiceStatus::Stopping => "◑"@,
        ServiceStatus::Stopped => "■"@,
        ServiceStatus::Error => "✗"@,
    }
}

/// The mark shown before a service for its status.
pub fn status_icon(s: ServiceStatus) -> (r: String)
    ensures
        r@ == status_mark(s),
{
    match s {
        ServiceStatus::Running => owned("▶"),
        ServiceStatus::Starting => owned("◐"),
        ServiceStatus::Stopping => owned("◑"),
        ServiceStatus::Stopped => owned("■"),
        ServiceStatus::Error => owned("✗"),
    }
}

/// The mark shown for a service's kind.
pub open spec fn kind_mark(c: ServiceConfig) -> Seq<char> {
    match c {
        ServiceConfig::Docker(_) => "🐳"@,
        ServiceConfig::Process(_) => "⚡"@,
        ServiceConfig::Compose(_) => "🐋"@,
        ServiceConfig::Agent(_) => "🤖"@,
    }
}

/// The mark shown for a service's kind.
pub fn type_indicator(c: &ServiceConfig) -> (r: String)
    ensures
        r@ == kind_mark(*c),
{
    match c {
        ServiceConfig::Docker(_) => owned("🐳"),
        ServiceConfig::Process(_) => owned("⚡"),
        ServiceConfig::Compose(_) => owned("🐋"),
        ServiceConfig::Agent(_) => owned("🤖"),
    }
}

/// The mark shown before a project: configured, compose file only, or neither.
pub open spec fn project_mark(p: Project) -> Seq<char> {
    if p.config is Some {
        "●"@
    } else if p.has_docker_compose {
        "○"@
    } else {
        " "@
    }
}

/// The mark shown before a project.
pub fn project_indicator(p: &Project) -> (r: String)
    ensures
        r@ == project_mark(*p),
{
    if p.config.is_some() {
        owned("●")
    } else if p.has_docker_compose {
        owned("○")
    } else {
        owned(" ")
    }
}

/// The port shown after a service: ` (port)`, or nothing.
pub open spec fn port_text(port: Option<u16>) -> Seq<char> {
    match port {
        Some(p) => " ("@ + decimal(p as nat) + ")"@,
        None => Seq::empty(),
    }
}

/// The port shown after a service.
pub fn port_suffix(port: Option<u16>) -> (r: String)
    ensures
        r@ == port_text(port),
{
    match port {
        Some(p) => concat3(" (", u64_to_decimal(p as u64).as_str(), ")"),
        None => String::new(),
    }
}

/// The title of the services panel: ` NAME - Services `, or ` Services `
/// without a project.
pub fn services_title(project: Option<&str>) -> (r: String)
    ensures
        r@ == match project {
            Some(n) => " "@ + n@ + " - Services "@,
            None => " Services "@,
        },
{
    match project {
        Some(n) => concat3(" ", n, " - Services "),
        None => owned(" Services "),
    }
}

/// What the services panel shows when there is no service to list.
pub fn services_placeholder(has_project: bool) -> (r: String)
    ensures
        r@ == if has_project {
            "No services configured"@
        } else {
            "Select a project"@
        },
{
    if has_project {
        owned("No services configured")
    } else {
        owned("Select a project")
    }
}

/// The title of the console panel, marked while it follows new lines.
pub fn console_title(follow: bool) -> (r: String)
    ensures
        r@ == if follow {
            " Console [Follow]  "@
        } else {
            " Console "@
        },
{
    if follow {
        owned(" Console [Follow]  ")
    } else {
        owned(" Console ")
    }
}

/// The first visible console line: following, the last page; otherwise the
/// scroll position, but no further than the last page.
pub open spec fn first_visible(total: nat, visible: nat, follow: bool, scroll: nat) -> nat {
    let last_page = if total > visible {
        (total - visible) as nat
    } else {
        0nat
    };
    if follow {
        last_page
    } else if scroll < last_page {
        scroll
    } else {
        last_page
    }
}

/// The first visible console line.
pub fn console_start(total: usize, visible: usize, follow: bool, scroll: usize) -> (r: usize)
    ensures
        r == first_visible(total as nat, visible as nat, follow, scroll as nat),
{
    let last_page = total.saturating_sub(visible);
    if follow {
        last_page
    } else if scroll < last_page {
        scroll
    } else {
        last_page
    }
}

/// How far down the console is scrolled, in percent: the share of lines up
/// to the end of the visible page; 100 when everything fits.
pub open spec fn scroll_percent_of(start: nat, visible: nat, total: nat) -> nat {
    if total <= visible {
        100
    } else {
        ((start + visible) * 100) / total
    }
}

/// How far down the console is scrolled, in percent.
pub fn scroll_percent(start: usize, visible: usize, total: usize) -> (r: u64)
    requires
        start <= total,
        (start + visible) * 100 <= u64::MAX,
    ensures
        r == scroll_percent_of(start as nat, visible as nat, total as nat),
{
    if total <= visible {
        100
    } else {
        let a = start as u64 + visible as u64;
        (a * 100) / (total as u64)
    }
}

/// A line of the help popup.
#[derive(Debug)]
pub enum HelpLine {
    /// A section heading.
    Heading(String),
    /// A key and what it does.
    Binding { keys: String, action: String },
    /// An empty line.
    Blank,
}

/// A help line seen over character sequences: a heading (keys empty), a
/// binding, or a blank line (both empty).
pub open spec fn help_view(l: HelpLine) -> (Seq<char>, Seq<char>) {
    match l {
        HelpLine::Heading(h) => (h@, Seq::empty()),
        HelpLine::Binding { keys, action } => (keys@, action@),
        HelpLine::Blank => (Seq::empty(), Seq::empty()),
    }
}

/// The text of the help popup.
pub open spec fn help_text() -> Seq<(Seq<char>, Seq<char>)> {
    seq![
        ("Global"@, Seq::empty()),
        ("  q, Ctrl+C  "@, "Quit application"@),
        ("  Tab        "@, "Cycle focus between panels"@),
        ("  ?          "@, "Toggle this help"@),
        (Seq::empty(), Seq::empty()),
        ("Navigation"@, Seq::empty()),
        ("  j/k, ↑/↓   "@, "Navigate items"@),
        ("  Enter      "@, "Select project / Toggle service"@),
        (Seq::empty(), Seq::empty()),
        ("Services"@, Seq::empty()),
        ("  Space      "@, "Toggle service (start/stop)"@),
        ("  r          "@, "Restart service"@),
        ("  a          "@, "Start all services"@),
        ("  s          "@, "Stop all services"@),
        ("  l          "@, "Focus logs for service"@),
        (Seq::empty(), Seq::empty()),
        ("Console"@, Seq::empty()),
        ("  PgUp/PgDn  "@, "Scroll logs"@),
        ("  f          "@, "Toggle follow mode"@),
        ("  c          "@, "Clear logs"@),
    ]
}

fn binding(keys: &str, action: &str) -> (r: HelpLine)
    ensures
        help_view(r) == (keys@, action@),
{
    HelpLine::Binding { keys: owned(keys), action: owned(action) }
}

/// The lines of the help popup, in order: headings, key bindings and blank
/// separators.
pub fn help_lines() -> (r: Vec<HelpLine>)
    ensures
        r@.map_values(|l: HelpLine| help_view(l)) == help_text(),
{
    let mut r: Vec<HelpLine> = Vec::new();
    r.push(HelpLine::Heading(owned("Global")));
    r.push(binding("  q, Ctrl+C  ", "Quit application"));
    r.push(binding("  Tab        ", "Cycle focus between panels"));
    r.push(binding("  ?          ", "Toggle this help"));
    r.push(HelpLine::Blank);
    r.push(HelpLine::Heading(owned("Navigation")));
    r.push(binding("  j/k, ↑/↓   ", "Navigate items"));
    r.push(binding("  Enter      ", "Select project / Toggle service"));
    r.push(HelpLine::Blank);
    r.push(HelpLine::Heading(owned("Services")));
    r.push(binding("  Space      ", "Toggle service (start/stop)"));
    r.push(binding("  r          ", "Restart service"));
    r.push(binding("  a          ", "Start all services"));
    r.push(binding("  s          ", "Stop all services"));
    r.push(binding("  l          ", "Focus logs for service"));
    r.push(HelpLine::Blank);
    r.push(HelpLine::Heading(owned("Console")));
    r.push(binding("  PgUp/PgDn  ", "Scroll logs"));
    r.push(binding("  f          ", "Toggle follow mode"));
    r.push(binding("  c          ", "Clear logs"));
    assert(r@.map_values(|l: HelpLine| help_view(l)) =~= help_text());
    r
}

} // verus!
