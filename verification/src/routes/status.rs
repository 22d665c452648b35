//! The status of the server as a page.
use crate::app_state::StreamFlags;
use crate::html::html_escape;
use crate::log_buffer::LogBuffer;
use crate::net::IpAddr;
use crate::routes::status_raw::{status_raw_handler, RawStatus, StatusReport};
use crate::text::{join_strings, replace};
use vstd::prelude::*;
use vstd::string::StringExecFns;

verus! {

/// The word that the status page shows for a flag.
pub open spec fn label(v: bool) -> Seq<char> {
    if v {
        "yes"@
    } else {
        "no"@
    }
}

/// The word that the status page shows for a flag.
pub fn bool_label(v: bool) -> (text: &'static str)
    ensures
        text@ == label(v),
        text@ == (if v {
            "yes"@
        } else {
            "no"@
        }),
{
    if v {
        "yes"
    } else {
        "no"
    }
}

/// The row of an address on the whitelist.
pub open spec fn whitelist_row(ip: Seq<char>) -> Seq<char> {
    "<li>"@ + crate::html::escaped(ip) + "</li>"@
}

/// The row of a connected client, with a button to disconnect it.
pub open spec fn client_row(ip: Seq<char>) -> Seq<char> {
    "<li>"@ + crate::html::escaped(ip)
        + "<form method=\"post\" action=\"/disconnect\" style=\"display:inline;margin:0\"><input type=\"hidden\" name=\"ip\" value=\""@
        + crate::html::escaped(ip)
        + "\"><button type=\"submit\" class=\"disconnect-btn\">disconnect</button></form></li>"@
}

/// The row of a line of the log.
pub open spec fn log_row(line: Seq<char>) -> Seq<char> {
    "<div>"@ + crate::html::escaped(line) + "</div>"@
}

/// The rows of the whitelist, one to a line.
pub open spec fn whitelist_rows(ips: Seq<Seq<char>>) -> Seq<char> {
    crate::text::join(ips.map_values(|ip: Seq<char>| whitelist_row(ip)), "\n"@)
}

/// The rows of the connected clients, one to a line, or one that says that there are none.
pub open spec fn client_rows(ips: Seq<Seq<char>>) -> Seq<char> {
    if ips.len() == 0 {
        "<li><em>none</em></li>"@
    } else {
        crate::text::join(ips.map_values(|ip: Seq<char>| client_row(ip)), "\n"@)
    }
}

/// The rows of the log, one to a line, the newest first.
pub open spec fn log_rows(lines: Seq<Seq<char>>) -> Seq<char> {
    crate::text::join(lines.reverse().map_values(|line: Seq<char>| log_row(line)), "\n"@)
}

/// The page: the template with its placeholders filled in one after the other.
pub open spec fn status_page(
    template: Seq<char>,
    report: crate::routes::status_raw::ReportView,
) -> Seq<char> {
    let page = crate::text::replace_all(template, "{{ffmpeg}}"@, label(report.ffmpeg_running));
    let page = crate::text::replace_all(page, "{{pw}}"@, label(report.pw_running));
    let page = crate::text::replace_all(
        page,
        "{{whitelist_rows}}"@,
        whitelist_rows(report.whitelist),
    );
    let page = crate::text::replace_all(
        page,
        "{{client_rows}}"@,
        client_rows(report.connected_clients),
    );
    crate::text::replace_all(page, "{{log_rows}}"@, log_rows(report.logs))
}

/// Builds the rows of the whitelist.
fn build_whitelist_rows(ips: &Vec<String>) -> (rows: String)
    ensures
        rows@ == whitelist_rows(crate::text::texts(ips@)),
{
    let mut rows: Vec<String> = Vec::new();
    let mut i: usize = 0;
    let ghost wanted = crate::text::texts(ips@).map_values(|ip: Seq<char>| whitelist_row(ip));
    while i < ips.len()
        invariant
            i <= ips@.len(),
            wanted == crate::text::texts(ips@).map_values(|ip: Seq<char>| whitelist_row(ip)),
            crate::text::texts(rows@) =~= wanted.take(i as int),
        decreases ips@.len() - i,
    {
        let mut row: String = String::new();
        row.append("<li>");
        row.append(html_escape(ips[i].as_str()).as_str());
        row.append("</li>");
        proof {
            assert(row@ =~= whitelist_row(ips@[i as int]@));
            assert(wanted[i as int] == row@);
            assert(wanted.take(i as int).push(row@) =~= wanted.take(i + 1));
        }
        let ghost before = crate::text::texts(rows@);
        rows.push(row);
        proof {
            assert(crate::text::texts(rows@) =~= before.push(row@));
        }
        i = i + 1;
    }
    proof {
        assert(wanted.take(i as int) =~= wanted);
    }
    join_strings(&rows, "\n")
}

/// Builds the rows of the connected clients.
fn build_client_rows(ips: &Vec<String>) -> (rows: String)
    ensures
        rows@ == client_rows(crate::text::texts(ips@)),
{
    if ips.len() == 0 {
        return "<li><em>none</em></li>".to_owned();
    }
    let mut rows: Vec<String> = Vec::new();
    let mut i: usize = 0;
    let ghost wanted = crate::text::texts(ips@).map_values(|ip: Seq<char>| client_row(ip));
    while i < ips.len()
        invariant
            i <= ips@.len(),
            wanted == crate::text::texts(ips@).map_values(|ip: Seq<char>| client_row(ip)),
            crate::text::texts(rows@) =~= wanted.take(i as int),
        decreases ips@.len() - i,
    {
        let ip: String = html_escape(ips[i].as_str());
        let mut row: String = String::new();
        row.append("<li>");
        row.append(ip.as_str());
        row.append(
            "<form method=\"post\" action=\"/disconnect\" style=\"display:inline;margin:0\"><input type=\"hidden\" name=\"ip\" value=\"",
        );
        row.append(ip.as_str());
        row.append(
            "\"><button type=\"submit\" class=\"disconnect-btn\">disconnect</button></form></li>",
        );
        proof {
            assert(row@ =~= client_row(ips@[i as int]@));
            assert(wanted[i as int] == row@);
            assert(wanted.take(i as int).push(row@) =~= wanted.take(i + 1));
        }
        let ghost before = crate::text::texts(rows@);
        rows.push(row);
        proof {
            assert(crate::text::texts(rows@) =~= before.push(row@));
        }
        i = i + 1;
    }
    proof {
        assert(wanted.take(i as int) =~= wanted);
    }
    join_strings(&rows, "\n")
}

/// Builds the rows of the log.
fn build_log_rows(lines: &Vec<String>) -> (rows: String)
    ensures
        rows@ == log_rows(crate::text::texts(lines@)),
{
    let mut rows: Vec<String> = Vec::new();
    let mut left: usize = lines.len();
    let ghost wanted = crate::text::texts(lines@).reverse().map_values(
        |line: Seq<char>| log_row(line),
    );
    while left > 0
        invariant
            left <= lines@.len(),
            wanted == crate::text::texts(lines@).reverse().map_values(
                |line: Seq<char>| log_row(line),
            ),
            crate::text::texts(rows@) =~= wanted.take(lines@.len() - left),
        decreases left,
    {
        left = left - 1;
        let mut row: String = String::new();
        row.append("<div>");
        row.append(html_escape(lines[left].as_str()).as_str());
        row.append("</div>");
        proof {
            assert(row@ =~= log_row(lines@[left as int]@));
            assert(wanted[lines@.len() - left - 1] == row@);
            assert(wanted.take(lines@.len() - left - 1).push(row@) =~= wanted.take(lines@.len() - left));
        }
        let ghost before = crate::text::texts(rows@);
        rows.push(row);
        proof {
            assert(crate::text::texts(rows@) =~= before.push(row@));
        }
    }
    proof {
        assert(wanted.take(lines@.len() as int) =~= wanted);
    }
    join_strings(&rows, "\n")
}

/// Fills in the template.
pub fn render_status(template: &str, report: &StatusReport) -> (page: String)
    ensures
        page@ == status_page(template@, report@),
        page@ == crate::text::replace_all(
            crate::text::replace_all(
                crate::text::replace_all(
                    crate::text::replace_all(
                        crate::text::replace_all(
                            template@,
                            "{{ffmpeg}}"@,
                            if report.ffmpeg_running {
                                "yes"@
                            } else {
                                "no"@
                            },
                        ),
                        "{{pw}}"@,
                        if report.pw_running {
                            "yes"@
                        } else {
                            "no"@
                        },
                    ),
                    "{{whitelist_rows}}"@,
                    whitelist_rows(crate::text::texts(report.whitelist@)),
                ),
                "{{client_rows}}"@,
                client_rows(crate::text::texts(report.connected_clients@)),
            ),
            "{{log_rows}}"@,
            log_rows(crate::text::texts(report.logs@)),
        ),
{
    proof {
        reveal_strlit("{{ffmpeg}}");
        reveal_strlit("{{pw}}");
        reveal_strlit("{{whitelist_rows}}");
        reveal_strlit("{{client_rows}}");
        reveal_strlit("{{log_rows}}");
    }
    let page: String = replace(template, "{{ffmpeg}}", bool_label(report.ffmpeg_running));
    let page: String = replace(page.as_str(), "{{pw}}", bool_label(report.pw_running));
    let whitelist_rows: String = build_whitelist_rows(&report.whitelist);
    let page: String = replace(page.as_str(), "{{whitelist_rows}}", whitelist_rows.as_str());
    let client_rows: String = build_client_rows(&report.connected_clients);
    let page: String = replace(page.as_str(), "{{client_rows}}", client_rows.as_str());
    let log_rows: String = build_log_rows(&report.logs);
    replace(page.as_str(), "{{log_rows}}", log_rows.as_str())
}

/// The answer to a request for the status page.
#[derive(Debug)]
pub enum StatusPage {
    /// The status 403.
    Forbidden,
    /// This page.
    Html(String),
}

/// Shows the status to this machine. `whitelist` and `connected_clients` are the
/// addresses as texts.
pub fn status_handler(
    addr: IpAddr,
    template: &str,
    whitelist: Vec<String>,
    connected_clients: Vec<String>,
    flags: StreamFlags,
    log: &LogBuffer,
) -> (page: StatusPage)
    ensures
        match page {
            StatusPage::Forbidden => !addr.loopback(),
            StatusPage::Html(html) => addr.loopback() && html@ == status_page(
                template@,
                crate::routes::status_raw::report_of(
                    crate::text::texts(whitelist@),
                    crate::text::texts(connected_clients@),
                    flags,
                    log@,
                ),
            ),
        },
        page matches StatusPage::Html(html) ==> html@ == crate::text::replace_all(
            crate::text::replace_all(
                crate::text::replace_all(
                    crate::text::replace_all(
                        crate::text::replace_all(
                            template@,
                            "{{ffmpeg}}"@,
                            if flags.ffmpeg_running {
                                "yes"@
                            } else {
                                "no"@
                            },
                        ),
                        "{{pw}}"@,
                        if flags.pw_running {
                            "yes"@
                        } else {
                            "no"@
                        },
                    ),
                    "{{whitelist_rows}}"@,
                    whitelist_rows(crate::text::texts(whitelist@)),
                ),
                "{{client_rows}}"@,
                client_rows(crate::text::texts(connected_clients@)),
            ),
            "{{log_rows}}"@,
            log_rows(log@),
        ),
{
    match status_raw_handler(addr, whitelist, connected_clients, flags, log) {
        RawStatus::Forbidden => StatusPage::Forbidden,
        RawStatus::Report(report) => StatusPage::Html(render_status(template, &report)),
    }
}

/// What a row of the whitelist, of the clients and of the log looks like.
pub proof fn law_rows_show_their_text(text: Seq<char>)
    ensures
        whitelist_row(text) == "<li>"@ + crate::html::escaped(text) + "</li>"@,
        client_row(text) == "<li>"@ + crate::html::escaped(text)
            + "<form method=\"post\" action=\"/disconnect\" style=\"display:inline;margin:0\"><input type=\"hidden\" name=\"ip\" value=\""@
            + crate::html::escaped(text)
            + "\"><button type=\"submit\" class=\"disconnect-btn\">disconnect</button></form></li>"@,
        log_row(text) == "<div>"@ + crate::html::escaped(text) + "</div>"@,
{
}

/// Every client has its row: a further client adds its own behind the others and leaves
/// them as they were; without clients the page says so.
pub proof fn law_every_client_has_a_row(ips: Seq<Seq<char>>, ip: Seq<char>)
    ensures
        client_rows(Seq::empty()) == "<li><em>none</em></li>"@,
        client_rows(seq![ip]) == client_row(ip),
        ips.len() > 0 ==> client_rows(ips.push(ip)) == client_rows(ips) + "\n"@ + client_row(ip),
{
    let rows = ips.map_values(|x: Seq<char>| client_row(x));
    assert(ips.push(ip).map_values(|x: Seq<char>| client_row(x)) =~= rows.push(client_row(ip)));
    crate::text::law_join_from_back(rows, client_row(ip), "\n"@);
    assert(seq![ip].map_values(|x: Seq<char>| client_row(x)) =~= seq![client_row(ip)]);
    crate::text::law_join_from_front(client_row(ip), Seq::empty(), "\n"@);
    assert(seq![client_row(ip)] + Seq::<Seq<char>>::empty() =~= seq![client_row(ip)]);
}

/// Every address on the whitelist has its row: a further one adds its own behind the
/// others and leaves them as they were.
pub proof fn law_every_address_has_a_row(ips: Seq<Seq<char>>, ip: Seq<char>)
    ensures
        whitelist_rows(Seq::empty()) == Seq::<char>::empty(),
        whitelist_rows(seq![ip]) == whitelist_row(ip),
        ips.len() > 0 ==> whitelist_rows(ips.push(ip)) == whitelist_rows(ips) + "\n"@
            + whitelist_row(ip),
{
    let rows = ips.map_values(|x: Seq<char>| whitelist_row(x));
    assert(ips.push(ip).map_values(|x: Seq<char>| whitelist_row(x)) =~= rows.push(
        whitelist_row(ip),
    ));
    crate::text::law_join_from_back(rows, whitelist_row(ip), "\n"@);
    assert(seq![ip].map_values(|x: Seq<char>| whitelist_row(x)) =~= seq![whitelist_row(ip)]);
    crate::text::law_join_from_front(whitelist_row(ip), Seq::empty(), "\n"@);
    assert(seq![whitelist_row(ip)] + Seq::<Seq<char>>::empty() =~= seq![whitelist_row(ip)]);
    assert(Seq::<Seq<char>>::empty().map_values(|x: Seq<char>| whitelist_row(x))
        =~= Seq::<Seq<char>>::empty());
}

/// An empty log has no rows.
pub proof fn law_empty_log_has_no_rows()
    ensures
        log_rows(Seq::empty()) == Seq::<char>::empty(),
{
    assert(Seq::<Seq<char>>::empty().reverse().map_values(|l: Seq<char>| log_row(l)) =~= Seq::<
        Seq<char>,
    >::empty());
}

/// A flag is shown as yes or no, and a placeholder is filled in where it stands: the page
/// of a template is made by replacing the placeholders in their order, each by what it
/// stands for.
pub proof fn law_placeholders_are_filled_in_turn(
    template: Seq<char>,
    report: crate::routes::status_raw::ReportView,
)
    ensures
        label(true) == "yes"@,
        label(false) == "no"@,
        status_page(template, report) == crate::text::replace_all(
            crate::text::replace_all(
                crate::text::replace_all(
                    crate::text::replace_all(
                        crate::text::replace_all(
                            template,
                            "{{ffmpeg}}"@,
                            if report.ffmpeg_running {
                                "yes"@
                            } else {
                                "no"@
                            },
                        ),
                        "{{pw}}"@,
                        if report.pw_running {
                            "yes"@
                        } else {
                            "no"@
                        },
                    ),
                    "{{whitelist_rows}}"@,
                    whitelist_rows(report.whitelist),
                ),
                "{{client_rows}}"@,
                client_rows(report.connected_clients),
            ),
            "{{log_rows}}"@,
            log_rows(report.logs),
        ),
{
}

/// The newest line of the log stands first on the page, and a further line leaves the
/// rows below it as they were.
pub proof fn law_newest_line_comes_first(lines: Seq<Seq<char>>, line: Seq<char>)
    ensures
        log_rows(lines.push(line)) == (if lines.len() == 0 {
            log_row(line)
        } else {
            log_row(line) + "\n"@ + log_rows(lines)
        }),
{
    let rows = lines.reverse().map_values(|l: Seq<char>| log_row(l));
    assert(lines.push(line).reverse().map_values(|l: Seq<char>| log_row(l)) =~= seq![log_row(line)]
        + rows);
    crate::text::law_join_from_front(log_row(line), rows, "\n"@);
}

/// Text without an opening brace holds no placeholder.
proof fn lemma_no_brace(s: Seq<char>, from: Seq<char>, to: Seq<char>)
    requires
        from.len() > 0,
        from[0] == '{',
        forall|i: int| 0 <= i < s.len() ==> s[i] != '{',
    ensures
        crate::text::replace_all(s, from, to) == s,
{
    assert forall|i: int| !crate::text::occurs_at(s, i, from) by {
        if crate::text::occurs_at(s, i, from) {
            assert(s.subrange(i, i + from.len())[0] == s[i]);
        }
    }
    crate::text::law_replace_without_occurrence(s, from, to);
}

/// A placeholder between two texts without braces is replaced, and no other placeholder is
/// found there.
proof fn lemma_one_placeholder(
    before: Seq<char>,
    mark: Seq<char>,
    after: Seq<char>,
    from: Seq<char>,
    to: Seq<char>,
)
    requires
        forall|i: int| 0 <= i < before.len() ==> before[i] != '{',
        forall|i: int| 0 <= i < after.len() ==> after[i] != '{',
        mark.len() > 2,
        mark[0] == '{' && mark[1] == '{',
        forall|i: int| 2 <= i < mark.len() ==> mark[i] != '{',
        from.len() > 2,
        from[0] == '{' && from[1] == '{',
        from == mark || from[2] != mark[2],
    ensures
        crate::text::replace_all(before + mark + after, from, to) == (if from == mark {
            before + to + after
        } else {
            before + mark + after
        }),
{
    let s = before + mark + after;
    let k = before.len() as int;
    assert forall|i: int| crate::text::occurs_at(s, i, from) implies i == k && from[2]
        == mark[2] by {
        let part = s.subrange(i, i + from.len());
        assert(part[0] == s[i] && part[1] == s[i + 1] && part[2] == s[i + 2]);
        assert(s[i] == '{' && s[i + 1] == '{');
        if i < k {
            assert(s[i] == before[i]);
        } else if i >= k + mark.len() {
            assert(s[i] == after[i - k - mark.len()]);
        } else if i > k {
            if i + 1 < k + mark.len() {
                assert(s[i + 1] == mark[i + 1 - k]);
            } else {
                assert(s[i + 1] == after[i + 1 - k - mark.len()]);
            }
        } else {
            assert(s[k + 2] == mark[2]);
        }
    }
    if from == mark {
        assert(s.subrange(k, k + mark.len()) =~= mark);
        assert(crate::text::occurs_at(s, k, from));
        crate::text::law_replace_first_occurrence(s, k, from, to);
        assert(s.take(k) =~= before);
        assert(s.skip(k + mark.len()) =~= after);
        lemma_no_brace(after, from, to);
    } else {
        assert forall|i: int| !crate::text::occurs_at(s, i, from) by {}
        crate::text::law_replace_without_occurrence(s, from, to);
    }
}

/// A placeholder of the template shows what it is named for, between the texts that stand
/// around it: the two flags, the rows of the whitelist, of the clients and of the log.
pub proof fn law_placeholder_shows_its_value(
    before: Seq<char>,
    after: Seq<char>,
    report: crate::routes::status_raw::ReportView,
)
    requires
        forall|i: int| 0 <= i < before.len() ==> before[i] != '{',
        forall|i: int| 0 <= i < after.len() ==> after[i] != '{',
    ensures
        status_page(before + "{{ffmpeg}}"@ + after, report) == before + (
        if report.ffmpeg_running {
            "yes"@
        } else {
            "no"@
        }) + after,
        status_page(before + "{{pw}}"@ + after, report) == before + (if report.pw_running {
            "yes"@
        } else {
            "no"@
        }) + after,
        (forall|i: int|
            0 <= i < whitelist_rows(report.whitelist).len() ==> whitelist_rows(report.whitelist)[i]
                != '{') ==> status_page(before + "{{whitelist_rows}}"@ + after, report) == before
            + whitelist_rows(report.whitelist) + after,
        (forall|i: int|
            0 <= i < client_rows(report.connected_clients).len() ==> client_rows(
                report.connected_clients,
            )[i] != '{') ==> status_page(before + "{{client_rows}}"@ + after, report) == before
            + client_rows(report.connected_clients) + after,
        status_page(before + "{{log_rows}}"@ + after, report) == before + log_rows(report.logs)
            + after,
{
    reveal_strlit("{{ffmpeg}}");
    reveal_strlit("{{pw}}");
    reveal_strlit("{{whitelist_rows}}");
    reveal_strlit("{{client_rows}}");
    reveal_strlit("{{log_rows}}");
    reveal_strlit("yes");
    reveal_strlit("no");
    let f = "{{ffmpeg}}"@;
    let p = "{{pw}}"@;
    let w = "{{whitelist_rows}}"@;
    let c = "{{client_rows}}"@;
    let l = "{{log_rows}}"@;
    let vf = label(report.ffmpeg_running);
    let vp = label(report.pw_running);
    let vw = whitelist_rows(report.whitelist);
    let vc = client_rows(report.connected_clients);
    let vl = log_rows(report.logs);
    assert forall|v: Seq<char>|
        (forall|i: int| 0 <= i < v.len() ==> v[i] != '{') implies forall|i: int|
        0 <= i < (#[trigger] (before + v + after)).len() ==> (before + v + after)[i] != '{' by {}
    let pf = before + vf + after;
    lemma_one_placeholder(before, f, after, f, vf);
    lemma_no_brace(pf, p, vp);
    lemma_no_brace(pf, w, vw);
    lemma_no_brace(pf, c, vc);
    lemma_no_brace(pf, l, vl);
    let pp = before + vp + after;
    lemma_one_placeholder(before, p, after, f, vf);
    lemma_one_placeholder(before, p, after, p, vp);
    lemma_no_brace(pp, w, vw);
    lemma_no_brace(pp, c, vc);
    lemma_no_brace(pp, l, vl);
    lemma_one_placeholder(before, w, after, f, vf);
    lemma_one_placeholder(before, w, after, p, vp);
    lemma_one_placeholder(before, w, after, w, vw);
    if forall|i: int| 0 <= i < vw.len() ==> vw[i] != '{' {
        lemma_no_brace(before + vw + after, c, vc);
        lemma_no_brace(before + vw + after, l, vl);
    }
    lemma_one_placeholder(before, c, after, f, vf);
    lemma_one_placeholder(before, c, after, p, vp);
    lemma_one_placeholder(before, c, after, w, vw);
    lemma_one_placeholder(before, c, after, c, vc);
    if forall|i: int| 0 <= i < vc.len() ==> vc[i] != '{' {
        lemma_no_brace(before + vc + after, l, vl);
    }
    lemma_one_placeholder(before, l, after, f, vf);
    lemma_one_placeholder(before, l, after, p, vp);
    lemma_one_placeholder(before, l, after, w, vw);
    lemma_one_placeholder(before, l, after, c, vc);
    lemma_one_placeholder(before, l, after, l, vl);
}

/// A template without placeholders is the page.
pub proof fn law_template_without_placeholders(
    template: Seq<char>,
    report: crate::routes::status_raw::ReportView,
)
    requires
        forall|i: int|
            !crate::text::occurs_at(template, i, "{{ffmpeg}}"@) && !crate::text::occurs_at(
                template,
                i,
                "{{pw}}"@,
            ) && !crate::text::occurs_at(template, i, "{{whitelist_rows}}"@)
                && !crate::text::occurs_at(template, i, "{{client_rows}}"@)
                && !crate::text::occurs_at(template, i, "{{log_rows}}"@),
    ensures
        status_page(template, report) == template,
{
    crate::text::law_replace_without_occurrence(
        template,
        "{{ffmpeg}}"@,
        label(report.ffmpeg_running),
    );
    crate::text::law_replace_without_occurrence(template, "{{pw}}"@, label(report.pw_running));
    crate::text::law_replace_without_occurrence(
        template,
        "{{whitelist_rows}}"@,
        whitelist_rows(report.whitelist),
    );
    crate::text::law_replace_without_occurrence(
        template,
        "{{client_rows}}"@,
        client_rows(report.connected_clients),
    );
    crate::text::law_replace_without_occurrence(
        template,
        "{{log_rows}}"@,
        log_rows(report.logs),
    );
}

} // verus!
