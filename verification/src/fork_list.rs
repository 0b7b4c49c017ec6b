//! Fork session listing: the rows (oldest first, with the stale flag) and their
//! JSON and text renderings.
use vstd::prelude::*;

use crate::escape::{json_escape, json_escape_spec, strings_view};
use crate::fork_meta::{extract_string_spec, extract_value_string};
use crate::fork_sessions::{age_days, age_days_spec, created_at_spec, session_created_at};
use crate::proxy::opt_string_view;
use crate::text::{dec_spec, join_spec, u64_to_string, usize_to_string};

verus! {

/// What the directory scan found for one session.
pub struct SessionListing {
    /// The directory name (empty when it could not be read).
    pub sid: String,
    /// The contents of its `.meta.json`, when readable.
    pub meta: Option<String>,
    /// The directory's modification time in seconds since the epoch, when known.
    pub mtime: Option<u64>,
    /// Number of `pane-*` directories.
    pub panes: usize,
}

/// One listed session.
pub struct ListRow {
    pub sid: String,
    pub panes: usize,
    pub created_at: u64,
    pub age_days: u64,
    pub base_label: String,
    pub stale: bool,
}

/// Spec view of a row.
pub struct RowView {
    pub sid: Seq<char>,
    pub panes: nat,
    pub created_at: u64,
    pub age_days: u64,
    pub base_label: Seq<char>,
    pub stale: bool,
}

pub open spec fn row_view(r: ListRow) -> RowView {
    RowView {
        sid: r.sid@,
        panes: r.panes as nat,
        created_at: r.created_at,
        age_days: r.age_days,
        base_label: r.base_label@,
        stale: r.stale,
    }
}

pub open spec fn rows_view(rs: Seq<ListRow>) -> Seq<RowView> {
    rs.map_values(|r: ListRow| row_view(r))
}

/// The row of a listed session: creation time from metadata or the directory,
/// base label from metadata (default `(unknown)`), age in days (zero when the
/// creation time is unknown), stale when the age reaches the threshold.
pub open spec fn row_of(now: u64, stale_days: u64, l: SessionListing) -> RowView {
    let created = created_at_spec(opt_string_view(l.meta), l.mtime);
    let label = match l.meta {
        Some(m) => match extract_string_spec(m@, "base_label"@) {
            Some(b) => b,
            None => "(unknown)"@,
        },
        None => "(unknown)"@,
    };
    let age = if created > 0 {
        age_days_spec(now, created)
    } else {
        0
    };
    RowView { sid: l.sid@, panes: l.panes as nat, created_at: created, age_days: age, base_label: label, stale: age >= stale_days }
}

/// Rows of the sessions with a name, in scan order.
pub open spec fn rows_unsorted(now: u64, stale_days: u64, ls: Seq<SessionListing>) -> Seq<RowView>
    decreases ls.len(),
{
    if ls.len() == 0 {
        seq![]
    } else {
        let rest = rows_unsorted(now, stale_days, ls.drop_last());
        if ls.last().sid@.len() > 0 {
            rest.push(row_of(now, stale_days, ls.last()))
        } else {
            rest
        }
    }
}

/// Stable insertion of a row by creation time: after every row not younger.
pub open spec fn insert_by_created(s: Seq<RowView>, x: RowView) -> Seq<RowView>
    decreases s.len(),
{
    if s.len() == 0 {
        seq![x]
    } else if s.last().created_at <= x.created_at {
        s.push(x)
    } else {
        insert_by_created(s.drop_last(), x).push(s.last())
    }
}

/// Stable sort by creation time (what `sort_by_key` does).
pub open spec fn sort_by_created(s: Seq<RowView>) -> Seq<RowView>
    decreases s.len(),
{
    if s.len() == 0 {
        seq![]
    } else {
        insert_by_created(sort_by_created(s.drop_last()), s.last())
    }
}

/// The rows of `fork list`: named sessions, oldest first.
pub open spec fn collect_rows_spec(now: u64, stale_days: u64, ls: Seq<SessionListing>) -> Seq<RowView> {
    sort_by_created(rows_unsorted(now, stale_days, ls))
}

fn row_for(now: u64, stale_days: u64, l: &SessionListing) -> (r: ListRow)
    ensures
        row_view(r) == row_of(now, stale_days, *l),
{
    let created = session_created_at(&l.meta, l.mtime);
    let label = match &l.meta {
        Some(m) => match extract_value_string(m.as_str(), "base_label") {
            Some(b) => b,
            None => "(unknown)".to_owned(),
        },
        None => "(unknown)".to_owned(),
    };
    let age = if created > 0 {
        age_days(now, created)
    } else {
        0
    };
    ListRow { sid: l.sid.clone(), panes: l.panes, created_at: created, age_days: age, base_label: label, stale: age >= stale_days }
}

/// Insert `x` into rows sorted stably by creation time.
fn insert_row(v: &mut Vec<ListRow>, x: ListRow)
    ensures
        rows_view(final(v)@) == insert_by_created(rows_view(old(v)@), row_view(x)),
{
    let ghost xv = row_view(x);
    let mut k: usize = v.len();
    assert(v@.take(k as int) =~= v@);
    assert(rows_view(v@.skip(k as int)) =~= seq![]);
    assert(insert_by_created(rows_view(v@), xv) + seq![] =~= insert_by_created(rows_view(v@), xv));
    while k > 0 && v[k - 1].created_at > x.created_at
        invariant
            k <= v@.len(),
            v@ == old(v)@,
            insert_by_created(rows_view(old(v)@), xv) == insert_by_created(rows_view(v@.take(k as int)), xv)
                + rows_view(v@.skip(k as int)),
            xv == row_view(x),
        decreases k,
    {
        proof {
            let pre = rows_view(v@.take(k as int));
            assert(pre.drop_last() =~= rows_view(v@.take(k - 1)));
            assert(pre.last() == row_view(v@[k - 1]));
            assert(rows_view(v@.skip(k - 1)) =~= seq![row_view(v@[k - 1])] + rows_view(v@.skip(k as int)));
            assert(insert_by_created(pre, xv) == insert_by_created(rows_view(v@.take(k - 1)), xv).push(pre.last()));
            assert(insert_by_created(rows_view(v@.take(k - 1)), xv).push(pre.last()) + rows_view(v@.skip(k as int))
                =~= insert_by_created(rows_view(v@.take(k - 1)), xv) + rows_view(v@.skip(k - 1)));
        }
        k = k - 1;
    }
    proof {
        let pre = rows_view(v@.take(k as int));
        if k > 0 {
            assert(pre.last() == row_view(v@[k - 1]));
        }
        assert(insert_by_created(pre, xv) =~= pre.push(xv));
    }
    v.insert(k, x);
    assert(rows_view(v@) =~= rows_view(old(v)@.take(k as int)).push(xv) + rows_view(old(v)@.skip(k as int)));
}

/// Rows for `fork list` over the scanned sessions, oldest first.
pub fn collect_rows(now: u64, stale_days: u64, listings: &Vec<SessionListing>) -> (rows: Vec<ListRow>)
    ensures
        rows_view(rows@) == collect_rows_spec(now, stale_days, listings@),
{
    let mut rows: Vec<ListRow> = Vec::new();
    let ghost mut unsorted: Seq<RowView> = seq![];
    let mut i: usize = 0;
    while i < listings.len()
        invariant
            i <= listings@.len(),
            unsorted == rows_unsorted(now, stale_days, listings@.take(i as int)),
            rows_view(rows@) == sort_by_created(unsorted),
        decreases listings@.len() - i,
    {
        assert(listings@.take(i + 1).drop_last() =~= listings@.take(i as int));
        let l = &listings[i];
        if !l.sid.as_str().is_empty() {
            let r = row_for(now, stale_days, l);
            proof {
                assert(unsorted.push(row_view(r)).drop_last() =~= unsorted);
                unsorted = unsorted.push(row_view(r));
            }
            insert_row(&mut rows, r);
        }
        i = i + 1;
    }
    assert(listings@.take(listings@.len() as int) =~= listings@);
    rows
}

proof fn lemma_insert_props(s: Seq<RowView>, x: RowView)
    requires
        forall|i: int, j: int| 0 <= i < j < s.len() ==> s[i].created_at <= s[j].created_at,
    ensures
        forall|i: int, j: int|
            0 <= i < j < insert_by_created(s, x).len() ==> insert_by_created(s, x)[i].created_at <= insert_by_created(
                s,
                x,
            )[j].created_at,
        insert_by_created(s, x).to_multiset() == s.to_multiset().insert(x),
        insert_by_created(s, x).len() == s.len() + 1,
        forall|k: int| 0 <= k < insert_by_created(s, x).len() ==> insert_by_created(s, x)[k] == x || s.contains(
            #[trigger] insert_by_created(s, x)[k],
        ),
    decreases s.len(),
{
    broadcast use vstd::seq_lib::group_to_multiset_ensures;

    if s.len() == 0 {
        assert(seq![x] =~= Seq::<RowView>::empty().push(x));
    } else if s.last().created_at <= x.created_at {
    } else {
        let p = s.drop_last();
        lemma_insert_props(p, x);
        let q = insert_by_created(p, x);
        assert(s =~= p.push(s.last()));
        assert forall|k: int| 0 <= k < q.len() implies #[trigger] q[k].created_at <= s.last().created_at by {
            if q[k] != x {
                assert(p.contains(q[k]));
                let m = choose|m: int| 0 <= m < p.len() && p[m] == q[k];
                assert(s[m] == p[m]);
            }
        }
        assert forall|k: int| 0 <= k < q.len() implies q[k] == x || s.contains(#[trigger] q[k]) by {
            if q[k] != x {
                assert(p.contains(q[k]));
                let m = choose|m: int| 0 <= m < p.len() && p[m] == q[k];
                assert(s[m] == q[k]);
            }
        }
        assert(q.push(s.last()).to_multiset() =~= q.to_multiset().insert(s.last()));
        assert(s.to_multiset() =~= p.to_multiset().insert(s.last()));
    }
}

/// The listing is ordered by creation time, oldest first, and holds exactly the
/// rows of the named sessions (as a multiset).
pub proof fn lemma_rows_sorted_permutation(s: Seq<RowView>)
    ensures
        forall|i: int, j: int|
            0 <= i < j < sort_by_created(s).len() ==> sort_by_created(s)[i].created_at <= sort_by_created(s)[j].created_at,
        sort_by_created(s).to_multiset() == s.to_multiset(),
    decreases s.len(),
{
    broadcast use vstd::seq_lib::group_to_multiset_ensures;

    if s.len() > 0 {
        lemma_rows_sorted_permutation(s.drop_last());
        lemma_insert_props(sort_by_created(s.drop_last()), s.last());
        assert(s =~= s.drop_last().push(s.last()));
    }
}

/// One row as JSON: the repository path and base label escaped, the session id
/// quoted as it is.
pub open spec fn row_json_spec(
    repo_root: Seq<char>,
    sid: Seq<char>,
    panes: nat,
    created_at: u64,
    age_days: u64,
    base_label: Seq<char>,
    stale: bool,
) -> Seq<char> {
    "{\"repo_root\":"@ + json_escape_spec(repo_root) + ",\"sid\":\""@ + sid + "\",\"panes\":"@ + dec_spec(panes)
        + ",\"created_at\":"@ + dec_spec(created_at as nat) + ",\"age_days\":"@ + dec_spec(age_days as nat)
        + ",\"base_label\":"@ + json_escape_spec(base_label) + ",\"stale\":"@ + crate::fork_sessions::bool_word(stale)
        + "}"@
}

pub fn format_row_json(
    repo_root: &str,
    sid: &str,
    panes: usize,
    created_at: u64,
    age_days: u64,
    base_label: &str,
    stale: bool,
) -> (s: String)
    ensures
        s@ == row_json_spec(repo_root@, sid@, panes as nat, created_at, age_days, base_label@, stale),
{
    let mut s = "{\"repo_root\":".to_owned();
    s.push_str(json_escape(repo_root).as_str());
    s.push_str(",\"sid\":\"");
    s.push_str(sid);
    s.push_str("\",\"panes\":");
    s.push_str(usize_to_string(panes).as_str());
    s.push_str(",\"created_at\":");
    s.push_str(u64_to_string(created_at).as_str());
    s.push_str(",\"age_days\":");
    s.push_str(u64_to_string(age_days).as_str());
    s.push_str(",\"base_label\":");
    s.push_str(json_escape(base_label).as_str());
    s.push_str(",\"stale\":");
    s.push_str(if stale {
        "true"
    } else {
        "false"
    });
    s.push_str("}");
    s
}

pub open spec fn row_json_of(repo_root: Seq<char>, r: RowView) -> Seq<char> {
    row_json_spec(repo_root, r.sid, r.panes, r.created_at, r.age_days, r.base_label, r.stale)
}

/// The JSON objects of the rows of one repository, in order.
pub open spec fn rows_json_items(repo_root: Seq<char>, rs: Seq<RowView>) -> Seq<Seq<char>> {
    rs.map_values(|r: RowView| row_json_of(repo_root, r))
}

/// Append the JSON objects of `rows` to `items`.
pub fn push_rows_json(repo_root: &str, rows: &Vec<ListRow>, items: &mut Vec<String>)
    ensures
        strings_view(final(items)@) == strings_view(old(items)@) + rows_json_items(repo_root@, rows_view(rows@)),
{
    let mut i: usize = 0;
    while i < rows.len()
        invariant
            i <= rows@.len(),
            strings_view(items@) == strings_view(old(items)@) + rows_json_items(repo_root@, rows_view(rows@.take(i as int))),
        decreases rows@.len() - i,
    {
        let r = &rows[i];
        let j = format_row_json(repo_root, r.sid.as_str(), r.panes, r.created_at, r.age_days, r.base_label.as_str(), r.stale);
        crate::escape::push_string_item(items, j);
        assert(strings_view(items@) =~= strings_view(old(items)@) + rows_json_items(
            repo_root@,
            rows_view(rows@.take(i + 1)),
        ));
        i = i + 1;
    }
    assert(rows@.take(rows@.len() as int) =~= rows@);
}

/// A JSON array of already rendered objects.
pub fn json_array_of(items: &Vec<String>) -> (s: String)
    ensures
        s@ == "["@ + join_spec(strings_view(items@), ","@) + "]"@,
{
    let mut s = "[".to_owned();
    s.push_str(crate::escape::join_strings(items, ",").as_str());
    s.push_str("]");
    s
}

/// One text line of the listing.
pub open spec fn row_text_spec(use_color: bool, r: RowView) -> Seq<char> {
    let base_col = crate::color::paint_spec(use_color, "\x1b[34;1m"@, r.base_label);
    let head = "  "@ + r.sid + "  panes="@ + dec_spec(r.panes) + "  age="@ + dec_spec(r.age_days as nat) + "d  base="@
        + base_col;
    if r.stale {
        head + "  "@ + crate::color::paint_spec(use_color, "\x1b[33m"@, "(stale)"@)
    } else {
        head
    }
}

pub fn row_text_line(use_color: bool, r: &ListRow) -> (s: String)
    ensures
        s@ == row_text_spec(use_color, row_view(*r)),
{
    let mut s = "  ".to_owned();
    s.push_str(r.sid.as_str());
    s.push_str("  panes=");
    s.push_str(usize_to_string(r.panes).as_str());
    s.push_str("  age=");
    s.push_str(u64_to_string(r.age_days).as_str());
    s.push_str("d  base=");
    s.push_str(crate::color::paint(use_color, "\x1b[34;1m", r.base_label.as_str()).as_str());
    if r.stale {
        s.push_str("  ");
        s.push_str(crate::color::paint(use_color, "\x1b[33m", "(stale)").as_str());
    }
    s
}

/// The header of one repository's listing.
pub open spec fn list_header_spec(use_color: bool, repo_root: Seq<char>) -> Seq<char> {
    crate::color::paint_spec(use_color, "\x1b[36;1m"@, "aifo-coder: fork sessions under"@) + " "@
        + crate::color::paint_spec(use_color, "\x1b[34;1m"@, repo_root + "/.aifo-coder/forks"@)
}

pub fn list_header(use_color: bool, repo_root: &str) -> (s: String)
    ensures
        s@ == list_header_spec(use_color, repo_root@),
{
    let mut s = crate::color::paint(use_color, "\x1b[36;1m", "aifo-coder: fork sessions under");
    s.push_str(" ");
    let mut p = repo_root.to_owned();
    p.push_str("/.aifo-coder/forks");
    s.push_str(crate::color::paint(use_color, "\x1b[34;1m", p.as_str()).as_str());
    s
}

} // verus!
