//! The skills that match what is typed behind a leading `/`.
use vstd::prelude::*;
use crate::diff_render::columns_of;
use crate::frame::{draw_lines, draw_views, new_ops, shown, DrawOp, Rect};
use crate::history_cell::pane_columns;
use crate::style::{
    fg_style, line_of, line_views, new_lines, no_lines, plain, push_line, raw_of, span_of, Color,
    Line, LineView, Span, Style,
};
use crate::text::{
    contains_text, lowercase, occurs_at, owned, starts_with, text_contains, text_starts_with,
    to_lowercase,
};

verus! {

/// A skill that the composer offers.
#[derive(Debug)]
pub struct SkillMeta {
    pub name: String,
    pub description: String,
}

impl SkillMeta {
    pub fn duplicate(&self) -> (r: SkillMeta)
        ensures
            r == *self,
    {
        SkillMeta { name: self.name.clone(), description: self.description.clone() }
    }
}

/// Copies `skills`.
pub fn dup_skills(skills: &Vec<SkillMeta>) -> (r: Vec<SkillMeta>)
    ensures
        r@ == skills@,
{
    let mut out: Vec<SkillMeta> = Vec::new();
    let mut i: usize = 0;
    while i < skills.len()
        invariant
            i <= skills@.len(),
            out@ =~= skills@.take(i as int),
        decreases skills@.len() - i,
    {
        out.push(skills[i].duplicate());
        i += 1;
    }
    out
}

/// Completion popup listing project skills while the composer holds a leading
/// `/token`. Unlike the question picker it is an Insert-mode adornment: it never
/// takes focus away from the composer, it only intercepts a few keys.
#[derive(Debug)]
pub struct SkillPopup {
    pub skills: Vec<SkillMeta>,
    /// Indices into `skills` that match the current query, best match first.
    pub filtered: Vec<usize>,
    pub selected: usize,
}

#[verifier::ext_equal]
pub struct PopupView {
    pub skills: Seq<SkillMeta>,
    pub filtered: Seq<usize>,
    pub selected: usize,
}

impl View for SkillPopup {
    type V = PopupView;

    open spec fn view(&self) -> PopupView {
        PopupView {
            skills: self.skills@,
            filtered: self.filtered@,
            selected: self.selected,
        }
    }
}

/// How well a skill matches: 0 where its name starts with the query, 1 where
/// its name holds it, 2 where its description does.
pub open spec fn rank_of(skill: SkillMeta, query: Seq<char>) -> Option<int> {
    let wanted = lowercase(query);
    if wanted.len() == 0 || starts_with(lowercase(skill.name@), wanted) {
        Some(0)
    } else if contains_text(lowercase(skill.name@), wanted) {
        Some(1)
    } else if contains_text(lowercase(skill.description@), wanted) {
        Some(2)
    } else {
        None
    }
}

/// The indices before `n` of the skills with one rank, in order.
pub open spec fn ranked(skills: Seq<SkillMeta>, query: Seq<char>, rank: int, n: nat) -> Seq<usize>
    decreases n,
{
    if n == 0 {
        Seq::empty()
    } else {
        let before = ranked(skills, query, rank, (n - 1) as nat);
        if rank_of(skills[n - 1], query) == Some(rank) {
            before.push((n - 1) as usize)
        } else {
            before
        }
    }
}

/// The matching skills, best match first.
pub open spec fn matching(skills: Seq<SkillMeta>, query: Seq<char>) -> Seq<usize> {
    ranked(skills, query, 0, skills.len()) + ranked(skills, query, 1, skills.len()) + ranked(
        skills,
        query,
        2,
        skills.len(),
    )
}

impl PopupView {
    /// Every index names a skill, and the selection is one of them where there
    /// is any.
    pub open spec fn wf(self) -> bool {
        &&& forall|i: int|
            0 <= i < self.filtered.len() ==> (#[trigger] self.filtered[i]) < self.skills.len()
        &&& self.selected < self.filtered.len() || self.selected == 0
        &&& self.filtered.len() <= usize::MAX
    }

    pub open spec fn queried(self, query: Seq<char>) -> PopupView {
        let filtered = matching(self.skills, query);
        PopupView {
            skills: self.skills,
            filtered,
            selected: if self.selected < filtered.len() {
                self.selected
            } else if filtered.len() > 0 {
                (filtered.len() - 1) as usize
            } else {
                0
            },
        }
    }

    pub open spec fn moved_up(self) -> PopupView {
        PopupView {
            selected: if self.selected > 0 {
                (self.selected - 1) as usize
            } else {
                0
            },
            ..self
        }
    }

    pub open spec fn moved_down(self) -> PopupView {
        PopupView {
            selected: if self.selected + 1 < self.filtered.len() {
                (self.selected + 1) as usize
            } else {
                self.selected
            },
            ..self
        }
    }

    /// The name of the selected skill.
    pub open spec fn chosen(self) -> Option<Seq<char>> {
        if self.selected < self.filtered.len() {
            Some(self.skills[self.filtered[self.selected as int] as int].name@)
        } else {
            None
        }
    }

    pub open spec fn height(self) -> u16 {
        if self.filtered.len() <= u16::MAX {
            self.filtered.len() as u16
        } else {
            u16::MAX
        }
    }

    /// The first row of a window of `budget` rows that shows the selection.
    pub open spec fn top(self, budget: nat) -> nat {
        if self.selected >= budget {
            (self.selected + 1 - budget) as nat
        } else {
            0
        }
    }

    pub open spec fn row(self, i: int) -> LineView {
        let skill = self.skills[self.filtered[i] as int];
        let here = i == self.selected;
        line_of(
            seq![
                raw_of(
                    if here {
                        "› "@
                    } else {
                        "  "@
                    },
                ),
                span_of(
                    "/"@ + skill.name@,
                    if here {
                        Style { fg: Some(Color::Cyan), ..plain().with_bold() }
                    } else {
                        plain()
                    },
                ),
                raw_of("  "@),
                span_of(skill.description@, fg_style(Color::DarkGray)),
            ],
        )
    }

    /// The rows from `from` up to `to`.
    pub open spec fn rows(self, from: int, to: int) -> Seq<LineView> {
        Seq::new((to - from) as nat, |i: int| self.row(from + i))
    }

    /// The rows in a window of `height` rows.
    pub open spec fn visible(self, height: u16) -> Seq<LineView> {
        let budget = columns_of(height);
        let from = self.top(budget);
        let to = if from + budget < self.filtered.len() {
            from + budget
        } else {
            self.filtered.len()
        };
        if from < to {
            self.rows(from as int, to as int)
        } else {
            no_lines()
        }
    }
}

proof fn lemma_ranked(skills: Seq<SkillMeta>, query: Seq<char>, rank: int, n: nat)
    requires
        n <= skills.len() <= usize::MAX,
    ensures
        ranked(skills, query, rank, n).len() <= n,
        forall|i: int|
            0 <= i < ranked(skills, query, rank, n).len() ==> (#[trigger] ranked(
                skills,
                query,
                rank,
                n,
            )[i]) < n,
    decreases n,
{
    if n > 0 {
        lemma_ranked(skills, query, rank, (n - 1) as nat);
    }
}

proof fn lemma_ranked_total(skills: Seq<SkillMeta>, query: Seq<char>, n: nat)
    ensures
        ranked(skills, query, 0, n).len() + ranked(skills, query, 1, n).len() + ranked(
            skills,
            query,
            2,
            n,
        ).len() <= n,
    decreases n,
{
    if n > 0 {
        lemma_ranked_total(skills, query, (n - 1) as nat);
    }
}

/// How well `skill` matches the query, which is in lower case already.
fn rank(skill: &SkillMeta, wanted: &str, Ghost(query): Ghost<Seq<char>>) -> (r: Option<u8>)
    requires
        wanted@ == lowercase(query),
    ensures
        match r {
            Some(n) => rank_of(*skill, query) == Some(n as int),
            None => rank_of(*skill, query) is None,
        },
{
    let name: String = to_lowercase(skill.name.as_str());
    if wanted.is_empty() || text_starts_with(name.as_str(), wanted) {
        return Some(0);
    }
    if text_contains(name.as_str(), wanted) {
        return Some(1);
    }
    let description: String = to_lowercase(skill.description.as_str());
    if text_contains(description.as_str(), wanted) {
        return Some(2);
    }
    None
}

impl SkillPopup {
    pub fn new(skills: Vec<SkillMeta>) -> (r: SkillPopup)
        ensures
            r@.wf(),
            r@ == (PopupView {
                skills: skills@,
                filtered: Seq::new(skills@.len(), |i: int| i as usize),
                selected: 0,
            }),
    {
        let mut filtered: Vec<usize> = Vec::new();
        let total: usize = skills.len();
        let mut i: usize = 0;
        while i < total
            invariant
                i <= total,
                filtered@ =~= Seq::new(i as nat, |j: int| j as usize),
            decreases total - i,
        {
            filtered.push(i);
            i += 1;
        }
        SkillPopup { skills, filtered, selected: 0 }
    }

    /// Re-filter against the text typed after the leading `/`. Ranking:
    /// name prefix > name substring > description substring, case-insensitive.
    pub fn set_query(&mut self, query: &str)
        requires
            old(self)@.wf(),
        ensures
            final(self)@.wf(),
            final(self)@ == old(self)@.queried(query@),
    {
        let wanted: String = to_lowercase(query);
        let ghost skills = self.skills@;
        let mut first: Vec<usize> = Vec::new();
        let mut second: Vec<usize> = Vec::new();
        let mut third: Vec<usize> = Vec::new();
        let mut i: usize = 0;
        while i < self.skills.len()
            invariant
                skills == self.skills@,
                wanted@ == lowercase(query@),
                i <= skills.len(),
                first@ =~= ranked(skills, query@, 0, i as nat),
                second@ =~= ranked(skills, query@, 1, i as nat),
                third@ =~= ranked(skills, query@, 2, i as nat),
            decreases skills.len() - i,
        {
            match rank(&self.skills[i], wanted.as_str(), Ghost(query@)) {
                Some(0) => first.push(i),
                Some(1) => second.push(i),
                Some(2) => third.push(i),
                _ => {},
            }
            i += 1;
        }
        first.append(&mut second);
        first.append(&mut third);
        proof {
            assert(first@ =~= matching(skills, query@));
            lemma_ranked(skills, query@, 0, skills.len());
            lemma_ranked(skills, query@, 1, skills.len());
            lemma_ranked(skills, query@, 2, skills.len());
            lemma_ranked_total(skills, query@, skills.len());
        }
        let total: usize = first.len();
        self.filtered = first;
        if self.selected >= total {
            self.selected = total.saturating_sub(1);
        }
    }

    pub fn is_empty(&self) -> (r: bool)
        ensures
            r == (self@.filtered.len() == 0),
    {
        self.filtered.len() == 0
    }

    pub fn move_up(&mut self)
        requires
            old(self)@.wf(),
        ensures
            final(self)@.wf(),
            final(self)@ == old(self)@.moved_up(),
    {
        self.selected = self.selected.saturating_sub(1);
    }

    pub fn move_down(&mut self)
        requires
            old(self)@.wf(),
        ensures
            final(self)@.wf(),
            final(self)@ == old(self)@.moved_down(),
    {
        let total: usize = self.filtered.len();
        if total > 0 && self.selected < total - 1 {
            self.selected = self.selected + 1;
        }
    }

    pub fn selected_name(&self) -> (r: Option<&str>)
        requires
            self@.wf(),
        ensures
            match r {
                Some(name) => self@.chosen() == Some(name@),
                None => self@.chosen() is None,
            },
    {
        if self.selected < self.filtered.len() {
            let idx: usize = self.filtered[self.selected];
            Some(self.skills[idx].name.as_str())
        } else {
            None
        }
    }

    pub fn desired_height(&self) -> (r: u16)
        ensures
            r == self@.height(),
    {
        if self.filtered.len() <= 65535 {
            self.filtered.len() as u16
        } else {
            65535
        }
    }

    fn line(&self, i: usize) -> (r: Line)
        requires
            self@.wf(),
            i < self@.filtered.len(),
        ensures
            r@ == self@.row(i as int),
    {
        let skill: &SkillMeta = &self.skills[self.filtered[i]];
        let mut name: String = owned("/");
        name.push_str(skill.name.as_str());
        let here: bool = i == self.selected;
        Line::of_four(
            if here {
                Span::raw("› ")
            } else {
                Span::raw("  ")
            },
            if here {
                Span::styled(name.as_str(), Style::new().bold().fg(Color::Cyan))
            } else {
                Span::styled(name.as_str(), Style::new())
            },
            Span::raw("  "),
            Span::styled(skill.description.as_str(), Style::new().fg(Color::DarkGray)),
        )
    }

    /// Draws the popup.
    pub fn render(&self, area: Rect) -> (r: Vec<DrawOp>)
        requires
            self@.wf(),
        ensures
            draw_views(r@) == seq![shown(area, self@.visible(area.height))],
    {
        let budget: usize = pane_columns(area.height);
        let total: usize = self.filtered.len();
        // Keep the selected row visible when the list is taller than the area.
        let start: usize = if self.selected >= budget {
            self.selected - budget + 1
        } else {
            0
        };
        let end: usize = if start.saturating_add(budget) < total {
            start.saturating_add(budget)
        } else {
            total
        };
        let mut lines: Vec<Line> = new_lines();
        if start < end {
            let mut i: usize = start;
            assert(line_views(lines@) =~= self@.rows(start as int, start as int));
            while i < end
                invariant
                    self@.wf(),
                    start <= i <= end <= self@.filtered.len(),
                    line_views(lines@) == self@.rows(start as int, i as int),
                decreases end - i,
            {
                push_line(&mut lines, self.line(i));
                assert(self@.rows(start as int, i + 1) =~= self@.rows(start as int, i as int).push(
                    self@.row(i as int),
                ));
                i += 1;
            }
        }
        let mut ops: Vec<DrawOp> = new_ops();
        draw_lines(&mut ops, area, lines);
        assert(draw_views(ops@) =~= seq![shown(area, self@.visible(area.height))]);
        ops
    }
}

// ---------------------------------------------------------------------------
// Laws
// ---------------------------------------------------------------------------

/// The selected row lies in the window.
pub proof fn selection_is_visible(popup: PopupView, budget: nat)
    requires
        popup.wf(),
        budget > 0,
    ensures
        popup.top(budget) <= popup.selected < popup.top(budget) + budget,
{
}

/// A skill is listed exactly when it matches.
pub proof fn listed_skills_match(skills: Seq<SkillMeta>, query: Seq<char>, i: usize)
    requires
        i < skills.len() <= usize::MAX,
    ensures
        matching(skills, query).contains(i) <==> rank_of(skills[i as int], query) is Some,
{
    let n = skills.len();
    lemma_ranked_holds(skills, query, 0, n, i);
    lemma_ranked_holds(skills, query, 1, n, i);
    lemma_ranked_holds(skills, query, 2, n, i);
    let a = ranked(skills, query, 0, n);
    let b = ranked(skills, query, 1, n);
    let c = ranked(skills, query, 2, n);
    let all = matching(skills, query);
    if a.contains(i) {
        let k = choose|k: int| 0 <= k < a.len() && a[k] == i;
        assert(all[k] == i);
    }
    if b.contains(i) {
        let k = choose|k: int| 0 <= k < b.len() && b[k] == i;
        assert(all[a.len() + k] == i);
    }
    if c.contains(i) {
        let k = choose|k: int| 0 <= k < c.len() && c[k] == i;
        assert(all[a.len() + b.len() + k] == i);
    }
    if all.contains(i) {
        let k = choose|k: int| 0 <= k < all.len() && all[k] == i;
        if k < a.len() {
            assert(a[k] == i);
        } else if k < a.len() + b.len() {
            assert(b[k - a.len()] == i);
        } else {
            assert(c[k - a.len() - b.len()] == i);
        }
    }
}

proof fn lemma_ranked_holds(
    skills: Seq<SkillMeta>,
    query: Seq<char>,
    rank: int,
    n: nat,
    i: usize,
)
    requires
        n <= skills.len() <= usize::MAX,
    ensures
        ranked(skills, query, rank, n).contains(i) <==> i < n && rank_of(skills[i as int], query)
            == Some(rank),
    decreases n,
{
    if n > 0 {
        let before = ranked(skills, query, rank, (n - 1) as nat);
        lemma_ranked_holds(skills, query, rank, (n - 1) as nat, i);
        let now = ranked(skills, query, rank, n);
        if rank_of(skills[n - 1], query) == Some(rank) {
            if before.contains(i) {
                let k = choose|k: int| 0 <= k < before.len() && before[k] == i;
                assert(now[k] == i);
            }
            if i == n - 1 {
                assert(now[before.len() as int] == i);
            }
            if now.contains(i) {
                let k = choose|k: int| 0 <= k < now.len() && now[k] == i;
                if k < before.len() {
                    assert(before[k] == i);
                }
            }
        }
    }
}

/// A skill matches best where its name starts with the query, next where its
/// name holds it, and last where its description does.
pub proof fn names_match_better_than_descriptions(skill: SkillMeta, query: Seq<char>)
    ensures
        ({
            let wanted = lowercase(query);
            let name = lowercase(skill.name@);
            let first = wanted.len() == 0 || name.len() >= wanted.len() && name.take(
                wanted.len() as int,
            ) =~= wanted;
            let within = exists|i: int|
                0 <= i <= name.len() - wanted.len() && #[trigger] name.subrange(
                    i,
                    i + wanted.len(),
                ) =~= wanted;
            &&& first <==> rank_of(skill, query) == Some(0int)
            &&& !first && within <==> rank_of(skill, query) == Some(1int)
            &&& rank_of(skill, query) is None ==> !first && !within
        }),
{
    let wanted = lowercase(query);
    let name = lowercase(skill.name@);
    assert(starts_with(name, wanted) <==> name.len() >= wanted.len() && name.take(
        wanted.len() as int,
    ) =~= wanted) by {
        if starts_with(name, wanted) {
            assert(name.take(wanted.len() as int) =~= wanted);
        } else if name.len() >= wanted.len() && name.take(wanted.len() as int) =~= wanted {
            assert forall|j: int| 0 <= j < wanted.len() implies name[j] == wanted[j] by {
                assert(name.take(wanted.len() as int)[j] == name[j]);
            }
        }
    }
    if contains_text(name, wanted) {
        let i = choose|i: int| occurs_at(name, wanted, i);
        assert(name.subrange(i, i + wanted.len()) =~= wanted);
    }
    if exists|i: int|
        0 <= i <= name.len() - wanted.len() && #[trigger] name.subrange(i, i + wanted.len())
            =~= wanted {
        let i = choose|i: int|
            0 <= i <= name.len() - wanted.len() && #[trigger] name.subrange(i, i + wanted.len())
                =~= wanted;
        assert forall|j: int| 0 <= j < wanted.len() implies name[i + j] == wanted[j] by {
            assert(name.subrange(i, i + wanted.len())[j] == name[i + j]);
        }
        assert(occurs_at(name, wanted, i));
    }
}

proof fn lemma_ranked_sorted(skills: Seq<SkillMeta>, query: Seq<char>, rank: int, n: nat)
    requires
        n <= skills.len() <= usize::MAX,
    ensures
        forall|i: int|
            0 <= i < ranked(skills, query, rank, n).len() ==> #[trigger] ranked(
                skills,
                query,
                rank,
                n,
            )[i] < n && rank_of(skills[ranked(skills, query, rank, n)[i] as int], query) == Some(
                rank,
            ),
        forall|i: int, j: int|
            0 <= i < j < ranked(skills, query, rank, n).len() ==> #[trigger] ranked(
                skills,
                query,
                rank,
                n,
            )[i] < #[trigger] ranked(skills, query, rank, n)[j],
    decreases n,
{
    if n > 0 {
        lemma_ranked_sorted(skills, query, rank, (n - 1) as nat);
    }
}

/// Better matches are listed first, and equal ones in the order of the skills.
pub proof fn better_matches_come_first(skills: Seq<SkillMeta>, query: Seq<char>, i: int, j: int)
    requires
        skills.len() <= usize::MAX,
        0 <= i < j < matching(skills, query).len(),
    ensures
        ({
            let a = matching(skills, query)[i];
            let b = matching(skills, query)[j];
            let ra = rank_of(skills[a as int], query);
            let rb = rank_of(skills[b as int], query);
            &&& a < skills.len() && b < skills.len()
            &&& ra is Some && rb is Some
            &&& ra->0 <= rb->0
            &&& ra->0 == rb->0 ==> a < b
        }),
{
    let n = skills.len();
    lemma_ranked_sorted(skills, query, 0, n);
    lemma_ranked_sorted(skills, query, 1, n);
    lemma_ranked_sorted(skills, query, 2, n);
    let x = ranked(skills, query, 0, n);
    let y = ranked(skills, query, 1, n);
    let z = ranked(skills, query, 2, n);
    let all = matching(skills, query);
    assert(all =~= x + y + z);
    assert(all[i] == if i < x.len() {
        x[i]
    } else if i < x.len() + y.len() {
        y[i - x.len()]
    } else {
        z[i - x.len() - y.len()]
    });
    assert(all[j] == if j < x.len() {
        x[j]
    } else if j < x.len() + y.len() {
        y[j - x.len()]
    } else {
        z[j - x.len() - y.len()]
    });
}

/// The selection stays where it is while the list is long enough, and on the
/// last skill where it is not.
pub proof fn queries_keep_the_selection(popup: PopupView, query: Seq<char>)
    ensures
        ({
            let after = popup.queried(query);
            let n = matching(popup.skills, query).len();
            &&& after.skills == popup.skills
            &&& after.filtered == matching(popup.skills, query)
            &&& popup.selected < n ==> after.selected == popup.selected
            &&& 0 < n <= popup.selected ==> after.selected == n - 1
            &&& n == 0 ==> after.selected == 0
        }),
{
}

/// Each skill shows its name behind a slash and its description; the selected
/// one is marked.
pub proof fn skills_show_their_name(popup: PopupView, i: int)
    requires
        0 <= i < popup.filtered.len(),
    ensures
        ({
            let line = popup.row(i);
            let skill = popup.skills[popup.filtered[i] as int];
            &&& line.spans.len() == 4
            &&& line.spans[0].content == if i == popup.selected {
                "› "@
            } else {
                "  "@
            }
            &&& line.spans[1].content == "/"@ + skill.name@
            &&& line.spans[1].style.add_modifier.bold <==> i == popup.selected
            &&& i == popup.selected ==> line.spans[1].style.fg == Some(Color::Cyan)
            &&& line.spans[2].content == "  "@
            &&& line.spans[3].content == skill.description@
            &&& line.spans[3].style.fg == Some(Color::DarkGray)
        }),
{
}

/// The list shows as many skills as there is room for, and the selected one
/// among them.
pub proof fn offered_skills_are_shown(popup: PopupView, height: u16)
    requires
        popup.wf(),
        height > 0,
        popup.filtered.len() > 0,
    ensures
        ({
            let rows = popup.visible(height);
            let top = popup.top(height as nat);
            &&& popup.filtered.len() >= height + top ==> rows.len() == height
            &&& popup.filtered.len() <= height ==> rows.len() == popup.filtered.len() - top
            &&& forall|i: int| 0 <= i < rows.len() ==> #[trigger] rows[i] == popup.row(top + i)
            &&& top <= popup.selected < top + rows.len()
            &&& popup.selected < height ==> top == 0
            &&& popup.selected >= height ==> top == popup.selected + 1 - height
        }),
{
}

} // verus!
