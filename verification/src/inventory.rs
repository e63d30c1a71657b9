//! The update inventory: the report of one server, the summary over all of
//! them, the table, and the notifications with their action buttons.

use crate::numbers::capped;
use crate::notify::{
    action_url,
    action_views,
    build_action_url,
    post_action,
    ActionView,
    NtfyAction,
    WebhookLink,
};
use crate::numbers::{decimal, parse_u64, push_count, push_decimal, unsigned_value};
use crate::packages::PackageManager;
use crate::server::{Server, ServerView};
use crate::text::{
    begins_with,
    contains_char,
    contains_str,
    from_chars,
    has_substring,
    is_text,
    pad_right,
    padded,
    push_all,
    push_str,
    replace,
    replaced,
    starts_with,
    to_chars,
    trim,
    trimmed,
};
use crate::tokens::{
    append_rows,
    join,
    join_with,
    lines,
    lines_of,
    push_row,
    rows,
    split,
    split_on,
    texts,
    words,
    words_of,
};
use vstd::prelude::*;

verus! {

/// Represents a Docker image with update status.
#[derive(Debug, Clone)]
pub struct DockerImage {
    pub name: String,
    pub current_tag: String,
    pub has_update: bool,
}

impl DockerImage {
    /// The image as a report shows it.
    pub open spec fn text(self) -> Seq<char> {
        if self.has_update {
            self.name@ + ":"@ + self.current_tag@ + " (update available)"@
        } else {
            self.name@ + ":"@ + self.current_tag@
        }
    }

    pub fn to_display(&self) -> (r: String)
        ensures
            r@ == self.text(),
    {
        let mut out = to_chars(self.name.as_str());
        push_str(&mut out, ":");
        push_str(&mut out, self.current_tag.as_str());
        if self.has_update {
            push_str(&mut out, " (update available)");
        }
        from_chars(&out)
    }
}

/// What the check of a server's Docker images gave.
pub enum DockerCheck {
    /// Docker images were not checked.
    Skipped,
    /// The images found, each with its update status.
    Images(Vec<DockerImage>),
    /// The check failed; the text says why.
    Failed(String),
}

// ---------------------------------------------------------------------------
// The report of one server
// ---------------------------------------------------------------------------

/// How many updates a report lists by name.
pub const LISTED_UPDATES: usize = 5;

pub open spec fn update_lines(updates: Seq<Seq<char>>, n: nat) -> Seq<Seq<char>>
    recommends
        n <= updates.len(),
{
    Seq::new(n, |i: int| "      - "@ + updates[i])
}

/// The lines that tell of the OS updates.
pub open spec fn os_lines(updates: Seq<Seq<char>>) -> Seq<Seq<char>> {
    if updates.len() == 0 {
        seq!["   OS: ✅ Up to date"@]
    } else {
        let head = seq!["   OS: 📦 "@ + decimal(updates.len()) + " updates available"@];
        let listed = head + update_lines(
            updates,
            if updates.len() <= LISTED_UPDATES {
                updates.len()
            } else {
                LISTED_UPDATES as nat
            },
        );
        if updates.len() > LISTED_UPDATES {
            listed.push("      ... and "@ + decimal((updates.len() - LISTED_UPDATES) as nat) + " more"@)
        } else {
            listed
        }
    }
}

/// The images that have an update, in order.
pub open spec fn with_updates(images: Seq<DockerImage>) -> Seq<DockerImage>
    decreases images.len(),
{
    if images.len() == 0 {
        Seq::<DockerImage>::empty()
    } else if images.last().has_update {
        with_updates(images.drop_last()).push(images.last())
    } else {
        with_updates(images.drop_last())
    }
}

pub open spec fn image_lines(images: Seq<DockerImage>, n: nat) -> Seq<Seq<char>>
    recommends
        n <= images.len(),
{
    Seq::new(n, |i: int| "      - "@ + images[i].text())
}

/// The lines that tell of the Docker images.
pub open spec fn docker_lines(check: DockerCheck) -> Seq<Seq<char>> {
    match check {
        DockerCheck::Skipped => Seq::<Seq<char>>::empty(),
        DockerCheck::Failed(why) => seq!["   Docker: ⚠️  Error: "@ + why@],
        DockerCheck::Images(images) => {
            let pending = with_updates(images@);
            if images@.len() == 0 {
                seq!["   Docker: No images found"@]
            } else if pending.len() == 0 {
                seq!["   Docker: ✅ "@ + decimal(images@.len()) + " images up to date"@]
            } else {
                let head = seq![
                    "   Docker: 🐳 "@ + decimal(pending.len()) + " of "@ + decimal(images@.len())
                        + " images with updates"@,
                ];
                let listed = head + image_lines(
                    pending,
                    if pending.len() <= LISTED_UPDATES {
                        pending.len()
                    } else {
                        LISTED_UPDATES as nat
                    },
                );
                if pending.len() > LISTED_UPDATES {
                    listed.push(
                        "      ... and "@ + decimal((pending.len() - LISTED_UPDATES) as nat)
                            + " more with updates"@,
                    )
                } else {
                    listed
                }
            }
        },
    }
}

/// The lines of a server's report.
pub open spec fn server_report_lines(
    server: ServerView,
    display_host: Seq<char>,
    pm: PackageManager,
    updates: Seq<Seq<char>>,
    docker: DockerCheck,
) -> Seq<Seq<char>> {
    seq![
        "🖥️  "@ + server.name + " ("@ + display_host + ")"@,
        "   Package Manager: "@ + pm.display_name_spec(),
    ] + os_lines(updates) + docker_lines(docker)
}

fn os_report_lines(updates: &Vec<String>) -> (r: Vec<Vec<char>>)
    ensures
        rows(r@) == os_lines(texts(updates@)),
{
    let mut out: Vec<Vec<char>> = Vec::new();
    if updates.len() == 0 {
        out.push(to_chars("   OS: ✅ Up to date"));
        assert(rows(out@) =~= seq!["   OS: ✅ Up to date"@]);
        return out;
    }
    let mut head = to_chars("   OS: 📦 ");
    push_count(&mut head, updates.len());
    push_str(&mut head, " updates available");
    let ghost h = head@;
    out.push(head);
    assert(rows(out@) =~= seq![h]);
    let limit: usize = if updates.len() <= LISTED_UPDATES {
        updates.len()
    } else {
        LISTED_UPDATES
    };
    let mut i: usize = 0;
    assert(seq![h] + update_lines(texts(updates@), 0) =~= seq![h]);
    while i < limit
        invariant
            i <= limit <= updates.len(),
            rows(out@) == seq![h] + update_lines(texts(updates@), i as nat),
        decreases limit - i,
    {
        let mut line = to_chars("      - ");
        push_str(&mut line, updates[i].as_str());
        assert(seq![h] + update_lines(texts(updates@), (i + 1) as nat) =~= (seq![h] + update_lines(
            texts(updates@),
            i as nat,
        )).push(line@));
        push_row(&mut out, line);
        i += 1;
    }
    if updates.len() > LISTED_UPDATES {
        let mut more = to_chars("      ... and ");
        push_count(&mut more, updates.len() - LISTED_UPDATES);
        push_str(&mut more, " more");
        push_row(&mut out, more);
    }
    out
}

fn pending_images(images: &Vec<DockerImage>) -> (r: Vec<Vec<char>>)
    ensures
        r@.len() == with_updates(images@).len(),
        forall|k: int| 0 <= k < r@.len() ==> (#[trigger] r@[k])@ == with_updates(images@)[k].text(),
{
    let mut out: Vec<Vec<char>> = Vec::new();
    let mut i: usize = 0;
    assert(images@.subrange(0, 0) =~= Seq::<DockerImage>::empty());
    while i < images.len()
        invariant
            i <= images.len(),
            out@.len() == with_updates(images@.subrange(0, i as int)).len(),
            forall|k: int|
                0 <= k < out@.len() ==> (#[trigger] out@[k])@ == with_updates(
                    images@.subrange(0, i as int),
                )[k].text(),
        decreases images.len() - i,
    {
        assert(images@.subrange(0, i + 1).drop_last() =~= images@.subrange(0, i as int));
        assert(images@.subrange(0, i + 1).last() == images@[i as int]);
        if images[i].has_update {
            let text = images[i].to_display();
            out.push(to_chars(text.as_str()));
        }
        i += 1;
    }
    assert(images@.subrange(0, images@.len() as int) =~= images@);
    out
}

fn docker_report_lines(check: &DockerCheck) -> (r: Vec<Vec<char>>)
    ensures
        rows(r@) == docker_lines(*check),
{
    let mut out: Vec<Vec<char>> = Vec::new();
    match check {
        DockerCheck::Skipped => {
            assert(rows(out@) =~= Seq::<Seq<char>>::empty());
        },
        DockerCheck::Failed(why) => {
            let mut line = to_chars("   Docker: ⚠️  Error: ");
            push_str(&mut line, why.as_str());
            let ghost l = line@;
            out.push(line);
            assert(rows(out@) =~= seq![l]);
        },
        DockerCheck::Images(images) => {
            let pending = pending_images(images);
            if images.len() == 0 {
                out.push(to_chars("   Docker: No images found"));
                assert(rows(out@) =~= seq!["   Docker: No images found"@]);
            } else if pending.len() == 0 {
                let mut line = to_chars("   Docker: ✅ ");
                push_count(&mut line, images.len());
                push_str(&mut line, " images up to date");
                let ghost l = line@;
                out.push(line);
                assert(rows(out@) =~= seq![l]);
            } else {
                let mut head = to_chars("   Docker: 🐳 ");
                push_count(&mut head, pending.len());
                push_str(&mut head, " of ");
                push_count(&mut head, images.len());
                push_str(&mut head, " images with updates");
                let ghost h = head@;
                out.push(head);
                assert(rows(out@) =~= seq![h]);
                let limit: usize = if pending.len() <= LISTED_UPDATES {
                    pending.len()
                } else {
                    LISTED_UPDATES
                };
                let ghost all = with_updates(images@);
                let mut i: usize = 0;
                assert(seq![h] + image_lines(all, 0) =~= seq![h]);
                while i < limit
                    invariant
                        i <= limit <= pending.len(),
                        pending@.len() == all.len(),
                        forall|k: int|
                            0 <= k < pending@.len() ==> (#[trigger] pending@[k])@ == all[k].text(),
                        rows(out@) == seq![h] + image_lines(all, i as nat),
                    decreases limit - i,
                {
                    let mut line = to_chars("      - ");
                    push_all(&mut line, &pending[i]);
                    assert(seq![h] + image_lines(all, (i + 1) as nat) =~= (seq![h] + image_lines(
                        all,
                        i as nat,
                    )).push(line@));
                    push_row(&mut out, line);
                    i += 1;
                }
                if pending.len() > LISTED_UPDATES {
                    let mut more = to_chars("      ... and ");
                    push_count(&mut more, pending.len() - LISTED_UPDATES);
                    push_str(&mut more, " more with updates");
                    push_row(&mut out, more);
                }
            }
        },
    }
    out
}

/// The report of one server: a header line, the package manager, the OS
/// updates and, where they were checked, the Docker images.
pub fn server_report(
    server: &Server,
    display_host: &str,
    pm: PackageManager,
    updates: &Vec<String>,
    docker: &DockerCheck,
) -> (r: String)
    ensures
        r@ == join_with(
            server_report_lines(server@, display_host@, pm, texts(updates@), *docker),
            "\n"@,
        ),
{
    let mut out: Vec<Vec<char>> = Vec::new();
    let mut first = to_chars("🖥️  ");
    push_str(&mut first, server.name.as_str());
    push_str(&mut first, " (");
    push_str(&mut first, display_host);
    push_str(&mut first, ")");
    let mut second = to_chars("   Package Manager: ");
    push_str(&mut second, pm.display_name());
    let ghost l1 = first@;
    let ghost l2 = second@;
    out.push(first);
    out.push(second);
    assert(rows(out@) =~= seq![l1, l2]);
    append_rows(&mut out, os_report_lines(updates));
    append_rows(&mut out, docker_report_lines(docker));
    let text = join(&out, "\n");
    from_chars(&text)
}

/// The report of a server whose check failed.
pub open spec fn failed_report_spec(name: Seq<char>, why: Seq<char>) -> Seq<char> {
    "❌ "@ + name + " - Error: "@ + why
}

pub fn failed_report(server_name: &str, why: &str) -> (r: String)
    ensures
        r@ == failed_report_spec(server_name@, why@),
{
    let mut out = to_chars("❌ ");
    push_str(&mut out, server_name);
    push_str(&mut out, " - Error: ");
    push_str(&mut out, why);
    from_chars(&out)
}

// ---------------------------------------------------------------------------
// The summary over all servers
// ---------------------------------------------------------------------------

/// Whether some report holds `mark`.
pub open spec fn any_holds(reports: Seq<Seq<char>>, mark: Seq<char>) -> bool {
    exists|i: int| 0 <= i < reports.len() && has_substring(#[trigger] reports[i], mark)
}

fn some_report_holds(reports: &Vec<String>, mark: &str) -> (r: bool)
    ensures
        r == any_holds(texts(reports@), mark@),
{
    let mut i: usize = 0;
    while i < reports.len()
        invariant
            i <= reports.len(),
            forall|k: int| 0 <= k < i ==> !has_substring(#[trigger] texts(reports@)[k], mark@),
        decreases reports.len() - i,
    {
        let text = to_chars(reports[i].as_str());
        if contains_str(&text, mark) {
            assert(has_substring(texts(reports@)[i as int], mark@));
            return true;
        }
        i += 1;
    }
    false
}

/// The title of an inventory: updates are available where some report
/// holds the package mark.
pub open spec fn inventory_summary(reports: Seq<Seq<char>>) -> Seq<char> {
    if any_holds(reports, "📦"@) {
        "📦 Updates available ("@ + decimal(reports.len()) + " servers)"@
    } else {
        "✅ All systems up to date ("@ + decimal(reports.len()) + " servers)"@
    }
}

pub fn format_summary(reports: &Vec<String>) -> (r: String)
    ensures
        r@ == inventory_summary(texts(reports@)),
{
    let mut out = if some_report_holds(reports, "📦") {
        to_chars("📦 Updates available (")
    } else {
        to_chars("✅ All systems up to date (")
    };
    push_count(&mut out, reports.len());
    push_str(&mut out, " servers)");
    from_chars(&out)
}

/// The title of an update run: it completed with errors where some report
/// holds the word `Error`.
pub open spec fn update_summary(reports: Seq<Seq<char>>, dry_run: bool) -> Seq<char> {
    (if dry_run {
        "[DRY-RUN] "@
    } else {
        ""@
    }) + (if any_holds(reports, "Error"@) {
        "⚠️  Updates completed with errors ("@
    } else {
        "✅ Updates completed successfully ("@
    }) + decimal(reports.len()) + " servers)"@
}

pub fn format_update_summary(reports: &Vec<String>, dry_run: bool) -> (r: String)
    ensures
        r@ == update_summary(texts(reports@), dry_run),
{
    let mut out = if dry_run {
        to_chars("[DRY-RUN] ")
    } else {
        to_chars("")
    };
    if some_report_holds(reports, "Error") {
        push_str(&mut out, "⚠️  Updates completed with errors (");
    } else {
        push_str(&mut out, "✅ Updates completed successfully (");
    }
    push_count(&mut out, reports.len());
    push_str(&mut out, " servers)");
    from_chars(&out)
}

// ---------------------------------------------------------------------------
// Notifications per server
// ---------------------------------------------------------------------------

pub open spec fn has_os_updates(report: Seq<char>) -> bool {
    has_substring(report, "📦"@) && has_substring(report, "OS:"@)
}

pub open spec fn has_docker_updates(report: Seq<char>) -> bool {
    has_substring(report, "🐳"@) && has_substring(report, "Docker:"@)
}

/// The buttons under a server's report: one for each kind of update that the
/// report tells of, and none without a configured secret.
pub open spec fn server_actions_spec(
    report: Seq<char>,
    server_name: Seq<char>,
    link: WebhookLink,
) -> Seq<ActionView> {
    if link.secret@.len() == 0 {
        Seq::<ActionView>::empty()
    } else {
        let a0 = Seq::<ActionView>::empty();
        let a1 = if has_os_updates(report) {
            a0.push(
                post_action(
                    "Update OS"@,
                    action_url(link.base_url@, "/webhook/update/os"@, server_name, link.secret@),
                ),
            )
        } else {
            a0
        };
        if has_docker_updates(report) {
            a1.push(
                post_action(
                    "Update Docker"@,
                    action_url(
                        link.base_url@,
                        "/webhook/update/docker/all"@,
                        server_name,
                        link.secret@,
                    ),
                ),
            )
        } else {
            a1
        }
    }
}

/// Generate action buttons for a single server's notification.
pub fn generate_server_action_buttons(report: &str, server: &Server, link: &WebhookLink) -> (r:
    Vec<NtfyAction>)
    ensures
        action_views(r@) == server_actions_spec(report@, server@.name, *link),
        r@.len() <= 2,
{
    let mut actions: Vec<NtfyAction> = Vec::new();
    assert(action_views(actions@) =~= Seq::<ActionView>::empty());
    if link.secret.as_str().unicode_len() == 0 {
        return actions;
    }
    let text = to_chars(report);
    if contains_str(&text, "📦") && contains_str(&text, "OS:") {
        let url = build_action_url(link, "/webhook/update/os", server.name.as_str());
        let a = NtfyAction::http_post("Update OS", url.as_str());
        assert(action_views(actions@.push(a)) =~= action_views(actions@).push(a@));
        actions.push(a);
    }
    if contains_str(&text, "🐳") && contains_str(&text, "Docker:") {
        let url = build_action_url(link, "/webhook/update/docker/all", server.name.as_str());
        let a = NtfyAction::http_post("Update Docker", url.as_str());
        assert(action_views(actions@.push(a)) =~= action_views(actions@).push(a@));
        actions.push(a);
    }
    actions
}

/// The title of a server's notification.
pub open spec fn server_title(report: Seq<char>, server_name: Seq<char>) -> Seq<char> {
    server_name + " - "@ + (if has_os_updates(report) && has_docker_updates(report) {
        "OS + Docker"@
    } else if has_os_updates(report) {
        "OS"@
    } else {
        "Docker"@
    }) + " updates available"@
}

/// The notification of one server.
pub struct ServerNotification {
    pub title: String,
    pub message: String,
    pub actions: Vec<NtfyAction>,
}

/// The notification for a server's report, or none where the report tells of
/// no update: the report itself under a title that names the kinds of
/// updates, with the buttons that apply them.
pub fn server_notification(report: &str, server: &Server, link: &WebhookLink) -> (r: Option<
    ServerNotification,
>)
    ensures
        r is Some <==> (has_os_updates(report@) || has_docker_updates(report@)),
        r matches Some(n) ==> n.title@ == server_title(report@, server@.name) && n.message@
            == report@ && action_views(n.actions@) == server_actions_spec(
            report@,
            server@.name,
            *link,
        ),
{
    let text = to_chars(report);
    let os = contains_str(&text, "📦") && contains_str(&text, "OS:");
    let docker = contains_str(&text, "🐳") && contains_str(&text, "Docker:");
    if !os && !docker {
        return None;
    }
    let mut title = to_chars(server.name.as_str());
    push_str(&mut title, " - ");
    let mut kinds: Vec<char> = Vec::new();
    if os && docker {
        push_str(&mut kinds, "OS + Docker");
        assert(kinds@ =~= "OS + Docker"@);
    } else if os {
        push_str(&mut kinds, "OS");
        assert(kinds@ =~= "OS"@);
    } else {
        push_str(&mut kinds, "Docker");
        assert(kinds@ =~= "Docker"@);
    }
    push_all(&mut title, &kinds);
    push_str(&mut title, " updates available");
    Some(
        ServerNotification {
            title: from_chars(&title),
            message: report.to_string(),
            actions: generate_server_action_buttons(report, server, link),
        },
    )
}

// ---------------------------------------------------------------------------
// The table
// ---------------------------------------------------------------------------

/// Data structure for summary table row.
#[derive(Debug, Clone)]
pub struct ServerSummary {
    pub name: String,
    pub os_status: String,
    pub docker_status: String,
    pub notes: String,
}

/// What follows the first `mark` of a line, up to the next one.
pub open spec fn after_mark(line: Seq<char>, mark: char) -> Option<Seq<char>> {
    let parts = split_on(line, mark);
    if parts.len() >= 2 {
        Some(parts[1])
    } else {
        None
    }
}

/// The OS status after a line of the report, given the status before it.
pub open spec fn os_step(prev: Seq<char>, line: Seq<char>) -> Seq<char> {
    if !has_substring(line, "OS:"@) {
        prev
    } else if has_substring(line, "✅ Up to date"@) {
        "✅ Up to date"@
    } else if line.contains('📦') {
        match after_mark(line, '📦') {
            Some(rest) => if words_of(rest).len() > 0 {
                "📦 "@ + words_of(rest)[0] + " available"@
            } else {
                prev
            },
            None => prev,
        }
    } else {
        prev
    }
}

/// The Docker status after a line of the report, given the status before
/// it.
pub open spec fn docker_step(prev: Seq<char>, line: Seq<char>) -> Seq<char> {
    if !has_substring(line, "Docker:"@) {
        prev
    } else if line.contains('✅') {
        match after_mark(line, '✅') {
            Some(rest) => if words_of(rest).len() > 0 {
                "✅ "@ + words_of(rest)[0] + "/"@ + words_of(rest)[0]
            } else {
                prev
            },
            None => prev,
        }
    } else if line.contains('🐳') {
        match after_mark(line, '🐳') {
            Some(rest) => if words_of(rest).len() >= 4 {
                "🐳 "@ + words_of(rest)[0] + "/"@ + words_of(rest)[2]
            } else {
                prev
            },
            None => prev,
        }
    } else if has_substring(line, "No images found"@) {
        "No Docker"@
    } else {
        prev
    }
}

/// The two statuses after the lines of a report.
pub open spec fn status_scan(lines: Seq<Seq<char>>) -> (Seq<char>, Seq<char>)
    decreases lines.len(),
{
    if lines.len() == 0 {
        ("N/A"@, "No Docker"@)
    } else {
        let (os, docker) = status_scan(lines.drop_last());
        (os_step(os, lines.last()), docker_step(docker, lines.last()))
    }
}

/// What kind of server this is, by how it is reached.
pub open spec fn notes_spec(server: ServerView) -> Seq<char> {
    match server.ssh_host {
        None => "Local server"@,
        Some(host) => if has_substring(host, "cloud"@) {
            "Oracle Cloud"@
        } else if starts_with(host, "root@"@) {
            "Proxmox VE"@
        } else {
            "Remote server"@
        },
    }
}

fn next_os_status(prev: Vec<char>, line: &Vec<char>) -> (r: Vec<char>)
    ensures
        r@ == os_step(prev@, line@),
{
    if !contains_str(line, "OS:") {
        return prev;
    }
    if contains_str(line, "✅ Up to date") {
        return to_chars("✅ Up to date");
    }
    if contains_char(line, '📦') {
        let parts = split(line, '📦');
        assert(rows(parts@).len() == parts@.len());
        if parts.len() >= 2 {
            assert(rows(parts@)[1] == parts@[1]@);
            let w = words(&parts[1]);
            assert(rows(w@).len() == w@.len());
            if w.len() > 0 {
                assert(rows(w@)[0] == w@[0]@);
                let mut out = to_chars("📦 ");
                push_all(&mut out, &w[0]);
                push_str(&mut out, " available");
                return out;
            }
        }
    }
    prev
}

fn next_docker_status(prev: Vec<char>, line: &Vec<char>) -> (r: Vec<char>)
    ensures
        r@ == docker_step(prev@, line@),
{
    if !contains_str(line, "Docker:") {
        return prev;
    }
    if contains_char(line, '✅') {
        let parts = split(line, '✅');
        assert(rows(parts@).len() == parts@.len());
        if parts.len() >= 2 {
            assert(rows(parts@)[1] == parts@[1]@);
            let w = words(&parts[1]);
            assert(rows(w@).len() == w@.len());
            if w.len() > 0 {
                assert(rows(w@)[0] == w@[0]@);
                let mut out = to_chars("✅ ");
                push_all(&mut out, &w[0]);
                push_str(&mut out, "/");
                push_all(&mut out, &w[0]);
                return out;
            }
        }
        prev
    } else if contains_char(line, '🐳') {
        let parts = split(line, '🐳');
        assert(rows(parts@).len() == parts@.len());
        if parts.len() >= 2 {
            assert(rows(parts@)[1] == parts@[1]@);
            let w = words(&parts[1]);
            assert(rows(w@).len() == w@.len());
            if w.len() >= 4 {
                assert(rows(w@)[0] == w@[0]@);
                assert(rows(w@)[2] == w@[2]@);
                let mut out = to_chars("🐳 ");
                push_all(&mut out, &w[0]);
                push_str(&mut out, "/");
                push_all(&mut out, &w[2]);
                return out;
            }
        }
        prev
    } else if contains_str(line, "No images found") {
        to_chars("No Docker")
    } else {
        prev
    }
}

/// Parse a report string into a ServerSummary.
pub fn parse_report_summary(report: &str, server: &Server) -> (r: ServerSummary)
    ensures
        r.name@ == server@.name,
        (r.os_status@, r.docker_status@) == status_scan(lines_of(report@)),
        r.notes@ == notes_spec(server@),
{
    let raw = to_chars(report);
    let all = lines(&raw);
    let mut os = to_chars("N/A");
    let mut docker = to_chars("No Docker");
    let mut i: usize = 0;
    assert(rows(all@).subrange(0, 0) =~= Seq::<Seq<char>>::empty());
    while i < all.len()
        invariant
            i <= all.len(),
            (os@, docker@) == status_scan(rows(all@).subrange(0, i as int)),
        decreases all.len() - i,
    {
        assert(rows(all@).subrange(0, i + 1).drop_last() =~= rows(all@).subrange(0, i as int));
        assert(rows(all@).subrange(0, i + 1).last() == all@[i as int]@);
        os = next_os_status(os, &all[i]);
        docker = next_docker_status(docker, &all[i]);
        i += 1;
    }
    assert(rows(all@).subrange(0, all@.len() as int) =~= rows(all@));
    let notes = match &server.ssh_host {
        None => "Local server".to_string(),
        Some(host) => {
            let h = to_chars(host.as_str());
            if contains_str(&h, "cloud") {
                "Oracle Cloud".to_string()
            } else if begins_with(&h, "root@") {
                "Proxmox VE".to_string()
            } else {
                "Remote server".to_string()
            }
        },
    };
    ServerSummary {
        name: server.name.clone(),
        os_status: from_chars(&os),
        docker_status: from_chars(&docker),
        notes,
    }
}

/// The groups of the table.
#[derive(Debug, Clone, Copy, PartialEq, Eq, Structural)]
pub enum Group {
    Local,
    Cloud,
    Proxmox,
    Other,
}

pub open spec fn group_of(notes: Seq<char>) -> Group {
    if notes == "Local server"@ {
        Group::Local
    } else if notes == "Oracle Cloud"@ {
        Group::Cloud
    } else if notes == "Proxmox VE"@ {
        Group::Proxmox
    } else {
        Group::Other
    }
}

pub open spec fn group_title(g: Group) -> Seq<char> {
    match g {
        Group::Local => "Local:\n"@,
        Group::Cloud => "Cloud:\n"@,
        Group::Proxmox => "Proxmox:\n"@,
        Group::Other => "Other:\n"@,
    }
}

/// The OS status in short: the check mark, the package mark with the count,
/// or `N/A`.
pub open spec fn os_short(status: Seq<char>) -> Seq<char> {
    if status.contains('✅') {
        "✅"@
    } else if status.contains('📦') {
        if words_of(status).len() >= 2 {
            "📦"@ + words_of(status)[1]
        } else {
            "📦?"@
        }
    } else {
        "N/A"@
    }
}

/// The Docker status in short.
pub open spec fn docker_short(status: Seq<char>) -> Seq<char> {
    if status == "No Docker"@ {
        "-"@
    } else if status.contains('✅') {
        "✅"@
    } else {
        replaced(status, "🐳 "@, "🐳"@)
    }
}

/// The row of a server.
pub open spec fn table_row(s: ServerSummary) -> Seq<char> {
    "  "@ + padded(s.name@, 12) + " OS:"@ + padded(os_short(s.os_status@), 6) + " Docker:"@
        + docker_short(s.docker_status@)
}

/// The rows of the servers of a group, each ended by a line feed.
pub open spec fn group_rows(summaries: Seq<ServerSummary>, g: Group) -> Seq<char>
    decreases summaries.len(),
{
    if summaries.len() == 0 {
        Seq::<char>::empty()
    } else if group_of(summaries.last().notes@) == g {
        group_rows(summaries.drop_last(), g) + table_row(summaries.last()) + "\n"@
    } else {
        group_rows(summaries.drop_last(), g)
    }
}

/// The block of a group: its title, its rows and an empty line; nothing
/// where the group has no server.
pub open spec fn group_block(summaries: Seq<ServerSummary>, g: Group) -> Seq<char> {
    if group_rows(summaries, g).len() == 0 {
        Seq::<char>::empty()
    } else {
        group_title(g) + group_rows(summaries, g) + "\n"@
    }
}

/// The pending packages that a status tells of.
pub open spec fn os_count(status: Seq<char>) -> nat {
    if status.contains('📦') && words_of(status).len() >= 2 {
        match unsigned_value(words_of(status)[1]) {
            Some(n) => if n <= u64::MAX {
                n
            } else {
                0
            },
            None => 0,
        }
    } else {
        0
    }
}

/// The images that a status tells of: the number after its first slash.
pub open spec fn image_count(status: Seq<char>) -> nat {
    if split_on(status, '/').len() >= 2 {
        match unsigned_value(trimmed(split_on(status, '/')[1])) {
            Some(n) => if n <= u64::MAX {
                n
            } else {
                0
            },
            None => 0,
        }
    } else {
        0
    }
}

pub open spec fn total_packages(summaries: Seq<ServerSummary>) -> nat
    decreases summaries.len(),
{
    if summaries.len() == 0 {
        0
    } else {
        total_packages(summaries.drop_last()) + os_count(summaries.last().os_status@)
    }
}

pub open spec fn total_images(summaries: Seq<ServerSummary>) -> nat
    decreases summaries.len(),
{
    if summaries.len() == 0 {
        0
    } else {
        total_images(summaries.drop_last()) + image_count(summaries.last().docker_status@)
    }
}

pub open spec fn table_rule() -> Seq<char> {
    "━━━━━━━━━━━━━━━━━━━━━━━━━━━━━━\n"@
}

/// The table: a header, the groups, and a footer with the totals.
pub open spec fn table_spec(summaries: Seq<ServerSummary>) -> Seq<char> {
    "📊 Infrastructure Update Summary\n"@ + table_rule() + "\n"@ + group_block(
        summaries,
        Group::Local,
    ) + group_block(summaries, Group::Cloud) + group_block(summaries, Group::Proxmox)
        + group_block(summaries, Group::Other) + table_rule() + "📊 "@ + decimal(summaries.len())
        + " servers | 📦 "@ + decimal(capped(total_packages(summaries)) as nat)
        + " packages | 🐳 "@ + decimal(capped(total_images(summaries)) as nat) + " images\n"@
}

fn group_for(notes: &str) -> (g: Group)
    ensures
        g == group_of(notes@),
{
    let n = to_chars(notes);
    if is_text(&n, "Local server") {
        Group::Local
    } else if is_text(&n, "Oracle Cloud") {
        Group::Cloud
    } else if is_text(&n, "Proxmox VE") {
        Group::Proxmox
    } else {
        Group::Other
    }
}

fn row_of(s: &ServerSummary) -> (r: Vec<char>)
    ensures
        r@ == table_row(*s),
{
    let os = to_chars(s.os_status.as_str());
    let os_text: Vec<char> = if contains_char(&os, '✅') {
        to_chars("✅")
    } else if contains_char(&os, '📦') {
        let w = words(&os);
        assert(rows(w@).len() == w@.len());
        if w.len() >= 2 {
            assert(rows(w@)[1] == w@[1]@);
            let mut t = to_chars("📦");
            push_all(&mut t, &w[1]);
            t
        } else {
            to_chars("📦?")
        }
    } else {
        to_chars("N/A")
    };
    let docker = to_chars(s.docker_status.as_str());
    let docker_text: Vec<char> = if is_text(&docker, "No Docker") {
        to_chars("-")
    } else if contains_char(&docker, '✅') {
        to_chars("✅")
    } else {
        replace(&docker, "🐳 ", "🐳")
    };
    let name = to_chars(s.name.as_str());
    let mut out = to_chars("  ");
    push_all(&mut out, &pad_right(&name, 12));
    push_str(&mut out, " OS:");
    push_all(&mut out, &pad_right(&os_text, 6));
    push_str(&mut out, " Docker:");
    push_all(&mut out, &docker_text);
    out
}

fn push_group(out: &mut Vec<char>, summaries: &Vec<ServerSummary>, g: Group)
    ensures
        final(out)@ == old(out)@ + group_block(summaries@, g),
{
    let mut body: Vec<char> = Vec::new();
    let mut i: usize = 0;
    assert(summaries@.subrange(0, 0) =~= Seq::<ServerSummary>::empty());
    while i < summaries.len()
        invariant
            i <= summaries.len(),
            body@ == group_rows(summaries@.subrange(0, i as int), g),
        decreases summaries.len() - i,
    {
        assert(summaries@.subrange(0, i + 1).drop_last() =~= summaries@.subrange(0, i as int));
        assert(summaries@.subrange(0, i + 1).last() == summaries@[i as int]);
        if group_for(summaries[i].notes.as_str()) == g {
            let row = row_of(&summaries[i]);
            push_all(&mut body, &row);
            push_str(&mut body, "\n");
        }
        i += 1;
    }
    assert(summaries@.subrange(0, summaries@.len() as int) =~= summaries@);
    if body.len() > 0 {
        let mut block: Vec<char> = Vec::new();
        let title = match g {
            Group::Local => "Local:\n",
            Group::Cloud => "Cloud:\n",
            Group::Proxmox => "Proxmox:\n",
            Group::Other => "Other:\n",
        };
        push_str(&mut block, title);
        push_all(&mut block, &body);
        push_str(&mut block, "\n");
        assert(block@ =~= group_block(summaries@, g));
        push_all(out, &block);
    } else {
        assert(old(out)@ + group_block(summaries@, g) =~= old(out)@);
    }
}

fn count_in_status(v: &Vec<char>) -> (n: u64)
    ensures
        n == match unsigned_value(v@) {
            Some(k) => if k <= u64::MAX {
                k
            } else {
                0
            },
            None => 0,
        },
{
    match parse_u64(v) {
        Some(n) => n,
        None => 0,
    }
}

fn totals(summaries: &Vec<ServerSummary>) -> (r: (u64, u64))
    ensures
        r.0 == capped(total_packages(summaries@)),
        r.1 == capped(total_images(summaries@)),
{
    let mut packages: u64 = 0;
    let mut images: u64 = 0;
    let mut i: usize = 0;
    assert(summaries@.subrange(0, 0) =~= Seq::<ServerSummary>::empty());
    while i < summaries.len()
        invariant
            i <= summaries.len(),
            packages == capped(total_packages(summaries@.subrange(0, i as int))),
            images == capped(total_images(summaries@.subrange(0, i as int))),
        decreases summaries.len() - i,
    {
        assert(summaries@.subrange(0, i + 1).drop_last() =~= summaries@.subrange(0, i as int));
        assert(summaries@.subrange(0, i + 1).last() == summaries@[i as int]);
        let os = to_chars(summaries[i].os_status.as_str());
        let p: u64 = if contains_char(&os, '📦') {
            let w = words(&os);
            assert(rows(w@).len() == w@.len());
            if w.len() >= 2 {
                assert(rows(w@)[1] == w@[1]@);
                count_in_status(&w[1])
            } else {
                0
            }
        } else {
            0
        };
        let docker = to_chars(summaries[i].docker_status.as_str());
        let parts = split(&docker, '/');
        assert(rows(parts@).len() == parts@.len());
        let d: u64 = if parts.len() >= 2 {
            assert(rows(parts@)[1] == parts@[1]@);
            count_in_status(&trim(&parts[1]))
        } else {
            0
        };
        packages = packages.saturating_add(p);
        images = images.saturating_add(d);
        i += 1;
    }
    assert(summaries@.subrange(0, summaries@.len() as int) =~= summaries@);
    (packages, images)
}

/// Format server summaries as a compact table.
pub fn format_table(summaries: &Vec<ServerSummary>) -> (r: String)
    ensures
        r@ == table_spec(summaries@),
{
    let mut out = to_chars("📊 Infrastructure Update Summary\n");
    push_str(&mut out, "━━━━━━━━━━━━━━━━━━━━━━━━━━━━━━\n");
    push_str(&mut out, "\n");
    push_group(&mut out, summaries, Group::Local);
    push_group(&mut out, summaries, Group::Cloud);
    push_group(&mut out, summaries, Group::Proxmox);
    push_group(&mut out, summaries, Group::Other);
    push_str(&mut out, "━━━━━━━━━━━━━━━━━━━━━━━━━━━━━━\n");
    push_str(&mut out, "📊 ");
    push_count(&mut out, summaries.len());
    push_str(&mut out, " servers | 📦 ");
    let t = totals(summaries);
    push_decimal(&mut out, t.0);
    push_str(&mut out, " packages | 🐳 ");
    push_decimal(&mut out, t.1);
    push_str(&mut out, " images\n");
    from_chars(&out)
}

} // verus!
