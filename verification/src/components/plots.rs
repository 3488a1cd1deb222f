use vstd::prelude::*;

use crate::decimal::{decimal, lemma_decimal_injective, push_decimal};

verus! {

/// A quantity recorded at each step of the simulation that a plot can put on
/// one of its axes.
#[derive(Debug, Clone, Copy, PartialEq, Eq, Structural)]
pub enum PlotVariable {
    T,
    V,
    L,
    Omega,
    Theta,
    Tension,
    HUsed,
}

/// The name under which a variable is shown.
pub open spec fn variable_name(v: PlotVariable) -> Seq<char> {
    match v {
        PlotVariable::T => "t"@,
        PlotVariable::V => "v"@,
        PlotVariable::L => "l"@,
        PlotVariable::Omega => "omega"@,
        PlotVariable::Theta => "theta"@,
        PlotVariable::Tension => "tension"@,
        PlotVariable::HUsed => "h_used"@,
    }
}

impl PlotVariable {
    /// Every variable, in the order in which the selection lists offer them.
    pub const ALL: [PlotVariable; 7] = [
        PlotVariable::T,
        PlotVariable::V,
        PlotVariable::L,
        PlotVariable::Omega,
        PlotVariable::Theta,
        PlotVariable::Tension,
        PlotVariable::HUsed,
    ];

    pub fn as_str(&self) -> (s: &'static str)
        ensures
            s@ == variable_name(*self),
    {
        match self {
            PlotVariable::T => "t",
            PlotVariable::V => "v",
            PlotVariable::L => "l",
            PlotVariable::Omega => "omega",
            PlotVariable::Theta => "theta",
            PlotVariable::Tension => "tension",
            PlotVariable::HUsed => "h_used",
        }
    }
}

/// The title of a plot of `y` against `x`: `y(x)`.
pub open spec fn plot_title(x: PlotVariable, y: PlotVariable) -> Seq<char> {
    variable_name(y) + "("@ + variable_name(x) + ")"@
}

proof fn lemma_variable_name_plain(v: PlotVariable)
    ensures
        variable_name(v).len() >= 1,
        forall|i: int|
            0 <= i < variable_name(v).len() ==> #[trigger] variable_name(v)[i] != '(' && variable_name(
                v,
            )[i] != ')',
{
    reveal_strlit("t");
    reveal_strlit("v");
    reveal_strlit("l");
    reveal_strlit("omega");
    reveal_strlit("theta");
    reveal_strlit("tension");
    reveal_strlit("h_used");
}

/// Distinct variables have distinct names.
pub proof fn lemma_variable_names_distinct(a: PlotVariable, b: PlotVariable)
    requires
        variable_name(a) == variable_name(b),
    ensures
        a == b,
{
    reveal_strlit("t");
    reveal_strlit("v");
    reveal_strlit("l");
    reveal_strlit("omega");
    reveal_strlit("theta");
    reveal_strlit("tension");
    reveal_strlit("h_used");
    if a != b {
        let na = variable_name(a);
        let nb = variable_name(b);
        if na.len() == nb.len() && na.len() >= 1 {
            assert(na[0] == nb[0]);
            if na.len() >= 2 {
                assert(na[1] == nb[1]);
            }
            if na.len() >= 3 {
                assert(na[2] == nb[2]);
            }
        }
    }
}

/// A title names both of its axes: it reads the name of `y`, an opening
/// parenthesis, the name of `x`, a closing parenthesis; so the title tells
/// back both variables, and plots of different pairs have different titles.
pub proof fn lemma_title_names_both_axes(x1: PlotVariable, y1: PlotVariable, x2: PlotVariable, y2: PlotVariable)
    ensures
        plot_title(x1, y1).len() == variable_name(y1).len() + variable_name(x1).len() + 2,
        plot_title(x1, y1).take(variable_name(y1).len() as int) == variable_name(y1),
        plot_title(x1, y1)[variable_name(y1).len() as int] == '(',
        plot_title(x1, y1).subrange(
            variable_name(y1).len() as int + 1,
            plot_title(x1, y1).len() - 1,
        ) == variable_name(x1),
        plot_title(x1, y1).last() == ')',
        plot_title(x1, y1) == plot_title(x2, y2) ==> x1 == x2 && y1 == y2,
{
    reveal_strlit("(");
    reveal_strlit(")");
    lemma_variable_name_plain(x1);
    lemma_variable_name_plain(y1);
    lemma_variable_name_plain(x2);
    lemma_variable_name_plain(y2);
    let ny1 = variable_name(y1);
    let nx1 = variable_name(x1);
    let ny2 = variable_name(y2);
    let nx2 = variable_name(x2);
    let t1 = plot_title(x1, y1);
    let t2 = plot_title(x2, y2);
    assert(t1 =~= ny1 + seq!['('] + nx1 + seq![')']);
    assert(t2 =~= ny2 + seq!['('] + nx2 + seq![')']);
    assert(t1.take(ny1.len() as int) =~= ny1);
    assert(t1.subrange(ny1.len() as int + 1, t1.len() - 1) =~= nx1);
    if t1 == t2 {
        if ny1.len() < ny2.len() {
            assert(t1[ny1.len() as int] == '(');
            assert(t2[ny1.len() as int] == ny2[ny1.len() as int]);
        } else if ny2.len() < ny1.len() {
            assert(t2[ny2.len() as int] == '(');
            assert(t1[ny2.len() as int] == ny1[ny2.len() as int]);
        }
        assert(ny1.len() == ny2.len());
        assert(t2.take(ny2.len() as int) =~= ny2);
        assert(t2.subrange(ny2.len() as int + 1, t2.len() - 1) =~= nx2);
        lemma_variable_names_distinct(y1, y2);
        lemma_variable_names_distinct(x1, x2);
    }
}

/// The identifier of the `k`-th plot created: `plot_k`.
pub open spec fn plot_id(k: nat) -> Seq<char> {
    "plot_"@ + decimal(k)
}

/// One plot of the dashboard: `y_var` against `x_var`, drawn under the
/// identifier `id_source`.
#[derive(Debug, Clone)]
pub struct PlotComponent {
    pub id_source: String,
    pub x_var: PlotVariable,
    pub y_var: PlotVariable,
}

impl PlotComponent {
    pub fn title(&self) -> (t: String)
        ensures
            t@ == plot_title(self.x_var, self.y_var),
    {
        let mut t = String::from_str(self.y_var.as_str());
        t.append("(");
        t.append(self.x_var.as_str());
        t.append(")");
        assert(t@ =~= plot_title(self.x_var, self.y_var));
        t
    }

    /// The file name offered when the plot is exported as an image:
    /// its title followed by `.png`.
    pub fn suggested_file_name(&self) -> (name: String)
        ensures
            name@ == plot_title(self.x_var, self.y_var) + ".png"@,
    {
        let mut name = self.title();
        name.append(".png");
        name
    }
}

/// The identifier of the `k`-th plot created.
pub fn plot_id_string(k: usize) -> (id: String)
    ensures
        id@ == plot_id(k as nat),
{
    let mut id = String::from_str("plot_");
    push_decimal(&mut id, k);
    id
}

/// No two plots draw the same variable against the same variable.
pub open spec fn axes_distinct(plots: Seq<PlotComponent>) -> bool {
    forall|i: int, j: int|
        #![trigger plots[i], plots[j]]
        0 <= i < plots.len() && 0 <= j < plots.len() && i != j ==> !(plots[i].x_var
            == plots[j].x_var && plots[i].y_var == plots[j].y_var)
}

/// No two plots share an identifier.
pub open spec fn ids_distinct(plots: Seq<PlotComponent>) -> bool {
    forall|i: int, j: int|
        #![trigger plots[i], plots[j]]
        0 <= i < plots.len() && 0 <= j < plots.len() && i != j ==> plots[i].id_source@
            != plots[j].id_source@
}

/// `id` is the identifier of one of the first `count` plots created.
pub open spec fn id_issued(id: Seq<char>, count: nat) -> bool {
    exists|k: nat| 1 <= k <= count && id == #[trigger] plot_id(k)
}

/// Every plot carries the identifier of one of the first `count` plots created.
pub open spec fn ids_issued(plots: Seq<PlotComponent>, count: nat) -> bool {
    forall|i: int| 0 <= i < plots.len() ==> id_issued(#[trigger] plots[i].id_source@, count)
}

/// Some plot draws `y` against `x`.
pub open spec fn has_plot_of(plots: Seq<PlotComponent>, x: PlotVariable, y: PlotVariable) -> bool {
    exists|j: int| 0 <= j < plots.len() && #[trigger] plots[j].x_var == x && plots[j].y_var == y
}

/// `s` with the items at `i` and `j` exchanged.
pub open spec fn swapped<A>(s: Seq<A>, i: int, j: int) -> Seq<A> {
    s.update(i, s[j]).update(j, s[i])
}

/// The message shown when a plot of `y` against `x` is asked for a second time.
pub open spec fn duplicate_message(x: PlotVariable, y: PlotVariable) -> Seq<char> {
    "Plot "@ + plot_title(x, y) + " already exists."@
}

/// The dashboard's list of plots, with the state of the dialog that adds one.
pub struct PlotsComponent {
    pub plots: Vec<PlotComponent>,
    pub show_add_modal: bool,
    pub new_plot_x: PlotVariable,
    pub new_plot_y: PlotVariable,
    pub plot_counter: usize,
    pub export_error_message: Option<String>,
    pub add_error_message: Option<String>,
}

impl PlotsComponent {
    /// The list holds no two plots of the same variables, no two plots with
    /// the same identifier, and only identifiers already handed out.
    pub open spec fn wf(&self) -> bool {
        &&& axes_distinct(self.plots@)
        &&& ids_distinct(self.plots@)
        &&& ids_issued(self.plots@, self.plot_counter as nat)
    }

    /// Everything but the plot list and the counter.
    pub open spec fn same_dialogs(&self, other: &Self) -> bool {
        &&& self.show_add_modal == other.show_add_modal
        &&& self.new_plot_x == other.new_plot_x
        &&& self.new_plot_y == other.new_plot_y
        &&& self.export_error_message == other.export_error_message
        &&& self.add_error_message == other.add_error_message
    }

    /// Whether some plot already draws `y` against `x`.
    pub fn has_plot_of(&self, x: PlotVariable, y: PlotVariable) -> (found: bool)
        ensures
            found == has_plot_of(self.plots@, x, y),
    {
        let mut j: usize = 0;
        while j < self.plots.len()
            invariant
                j <= self.plots@.len(),
                forall|k: int| 0 <= k < j ==> !(#[trigger] self.plots@[k].x_var == x && self.plots@[k].y_var == y),
            decreases self.plots@.len() - j,
        {
            if self.plots[j].x_var == x && self.plots[j].y_var == y {
                return true;
            }
            j = j + 1;
        }
        false
    }

    /// Moves plot `i` one place up the list; the first plot stays where it is.
    pub fn move_up(&mut self, i: usize)
        requires
            i == 0 || i < old(self).plots@.len(),
        ensures
            old(self).wf() ==> final(self).wf(),
            final(self).plots@ == if i > 0 {
                swapped(old(self).plots@, i - 1, i as int)
            } else {
                old(self).plots@
            },
            final(self).plot_counter == old(self).plot_counter,
            final(self).same_dialogs(&*old(self)),
    {
        if i > 0 {
            let ghost before = self.plots@;
            let p = self.plots.remove(i);
            self.plots.insert(i - 1, p);
            assert(self.plots@ =~= swapped(before, i - 1, i as int));
            proof {
                if old(self).wf() {
                    lemma_swapped_keeps_wf(before, self.plots@, i - 1, i as int, self.plot_counter as nat);
                }
            }
        }
    }

    /// Moves plot `i` one place down the list; the last plot stays where it is.
    pub fn move_down(&mut self, i: usize)
        requires
            old(self).plots@.len() > 0,
        ensures
            old(self).wf() ==> final(self).wf(),
            final(self).plots@ == if i < old(self).plots@.len() - 1 {
                swapped(old(self).plots@, i as int, i + 1)
            } else {
                old(self).plots@
            },
            final(self).plot_counter == old(self).plot_counter,
            final(self).same_dialogs(&*old(self)),
    {
        if i < self.plots.len() - 1 {
            let ghost before = self.plots@;
            let p = self.plots.remove(i);
            self.plots.insert(i + 1, p);
            assert(self.plots@ =~= swapped(before, i as int, i + 1));
            proof {
                if old(self).wf() {
                    lemma_swapped_keeps_wf(before, self.plots@, i as int, i + 1, self.plot_counter as nat);
                }
            }
        }
    }

    /// Removes plot `i`, if there is one.
    pub fn delete(&mut self, i: usize)
        ensures
            old(self).wf() ==> final(self).wf(),
            final(self).plots@ == if i < old(self).plots@.len() {
                old(self).plots@.remove(i as int)
            } else {
                old(self).plots@
            },
            final(self).plot_counter == old(self).plot_counter,
            final(self).same_dialogs(&*old(self)),
    {
        if i < self.plots.len() {
            let ghost before = self.plots@;
            self.plots.remove(i);
            proof {
                if old(self).wf() {
                    lemma_removed_keeps_wf(before, i as int, self.plot_counter as nat);
                }
            }
        }
    }

    /// Adds a plot of `new_plot_y` against `new_plot_x` and closes the dialog,
    /// unless such a plot exists already: then the dialog stays and shows
    /// why nothing was added.
    pub fn confirm_add(&mut self)
        requires
            !has_plot_of(old(self).plots@, old(self).new_plot_x, old(self).new_plot_y)
                ==> old(self).plot_counter < usize::MAX,
        ensures
            old(self).wf() ==> final(self).wf(),
            final(self).new_plot_x == old(self).new_plot_x,
            final(self).new_plot_y == old(self).new_plot_y,
            final(self).export_error_message == old(self).export_error_message,
            has_plot_of(old(self).plots@, old(self).new_plot_x, old(self).new_plot_y) ==> {
                &&& final(self).plots@ == old(self).plots@
                &&& final(self).plot_counter == old(self).plot_counter
                &&& final(self).show_add_modal == old(self).show_add_modal
                &&& final(self).add_error_message matches Some(m) && m@ == duplicate_message(
                    old(self).new_plot_x,
                    old(self).new_plot_y,
                )
            },
            !has_plot_of(old(self).plots@, old(self).new_plot_x, old(self).new_plot_y) ==> {
                &&& final(self).plot_counter == old(self).plot_counter + 1
                &&& final(self).plots@.len() == old(self).plots@.len() + 1
                &&& final(self).plots@.drop_last() == old(self).plots@
                &&& final(self).plots@.last().id_source@ == plot_id(final(self).plot_counter as nat)
                &&& final(self).plots@.last().x_var == old(self).new_plot_x
                &&& final(self).plots@.last().y_var == old(self).new_plot_y
                &&& !final(self).show_add_modal
                &&& final(self).add_error_message == old(self).add_error_message
            },
    {
        let x = self.new_plot_x;
        let y = self.new_plot_y;
        if self.has_plot_of(x, y) {
            let mut message = String::from_str("Plot ");
            message.append(y.as_str());
            message.append("(");
            message.append(x.as_str());
            message.append(")");
            message.append(" already exists.");
            assert(message@ =~= duplicate_message(x, y));
            self.add_error_message = Some(message);
        } else {
            let ghost before = self.plots@;
            self.plot_counter = self.plot_counter + 1;
            let plot = PlotComponent {
                id_source: plot_id_string(self.plot_counter),
                x_var: x,
                y_var: y,
            };
            self.plots.push(plot);
            self.show_add_modal = false;
            assert(self.plots@.drop_last() =~= before);
            proof {
                if old(self).wf() {
                    lemma_pushed_keeps_wf(before, self.plots@, self.plot_counter as nat);
                }
            }
        }
    }
}

impl Default for PlotsComponent {
    fn default() -> (p: Self)
        ensures
            p.wf(),
            p.plot_counter == 1,
            p.plots@.len() == 1,
            p.plots@[0].id_source@ == plot_id(1),
            p.plots@[0].x_var == PlotVariable::T,
            p.plots@[0].y_var == PlotVariable::L,
            !p.show_add_modal,
            p.new_plot_x == PlotVariable::T,
            p.new_plot_y == PlotVariable::Tension,
            p.export_error_message is None,
            p.add_error_message is None,
    {
        let first = PlotComponent {
            id_source: plot_id_string(1),
            x_var: PlotVariable::T,
            y_var: PlotVariable::L,
        };
        let mut plots = Vec::new();
        plots.push(first);
        let p = PlotsComponent {
            plots,
            show_add_modal: false,
            new_plot_x: PlotVariable::T,
            new_plot_y: PlotVariable::Tension,
            plot_counter: 1,
            export_error_message: None,
            add_error_message: None,
        };
        assert(id_issued(p.plots@[0].id_source@, 1));
        p
    }
}

/// Moving a plot down and back up (or up and back down) restores the list.
pub proof fn lemma_move_round_trip<A>(s: Seq<A>, i: int)
    requires
        0 <= i,
        i + 1 < s.len(),
    ensures
        swapped(swapped(s, i, i + 1), i, i + 1) == s,
{
    assert(swapped(swapped(s, i, i + 1), i, i + 1) =~= s);
}

/// The identifier that the next added plot gets is carried by no plot of a
/// well-formed list, so identifiers never repeat, whatever was deleted.
pub proof fn lemma_next_id_fresh(c: &PlotsComponent)
    requires
        c.wf(),
    ensures
        forall|i: int|
            0 <= i < c.plots@.len() ==> #[trigger] c.plots@[i].id_source@ != plot_id(
                c.plot_counter as nat + 1,
            ),
{
    assert forall|i: int| 0 <= i < c.plots@.len() implies #[trigger] c.plots@[i].id_source@
        != plot_id(c.plot_counter as nat + 1) by {
        lemma_fresh_id(c.plots@[i].id_source@, c.plot_counter as nat);
    }
}

proof fn lemma_issued_grows(id: Seq<char>, a: nat, b: nat)
    requires
        id_issued(id, a),
        a <= b,
    ensures
        id_issued(id, b),
{
    let k = choose|k: nat| 1 <= k <= a && id == #[trigger] plot_id(k);
    assert(plot_id(k) == id);
}

proof fn lemma_fresh_id(id: Seq<char>, count: nat)
    requires
        id_issued(id, count),
    ensures
        id != plot_id(count + 1),
{
    let k = choose|k: nat| 1 <= k <= count && id == #[trigger] plot_id(k);
    if id == plot_id(count + 1) {
        let prefix = "plot_"@;
        assert(decimal(k) =~= plot_id(k).subrange(prefix.len() as int, plot_id(k).len() as int));
        assert(decimal(count + 1) =~= plot_id(count + 1).subrange(
            prefix.len() as int,
            plot_id(count + 1).len() as int,
        ));
        lemma_decimal_injective(k, count + 1);
    }
}

proof fn lemma_swapped_keeps_wf(
    before: Seq<PlotComponent>,
    after: Seq<PlotComponent>,
    a: int,
    b: int,
    count: nat,
)
    requires
        0 <= a < before.len(),
        0 <= b < before.len(),
        a != b,
        after == swapped(before, a, b),
        axes_distinct(before),
        ids_distinct(before),
        ids_issued(before, count),
    ensures
        axes_distinct(after),
        ids_distinct(after),
        ids_issued(after, count),
{
    assert forall|i: int| 0 <= i < after.len() implies after[i] == before[if i == a {
        b
    } else if i == b {
        a
    } else {
        i
    }] by {}
    assert forall|i: int, j: int|
        0 <= i < after.len() && 0 <= j < after.len() && i != j implies !(after[i].x_var
            == after[j].x_var && after[i].y_var == after[j].y_var) && after[i].id_source@
            != after[j].id_source@ by {
        let pi = if i == a {
            b
        } else if i == b {
            a
        } else {
            i
        };
        let pj = if j == a {
            b
        } else if j == b {
            a
        } else {
            j
        };
        assert(after[i] == before[pi]);
        assert(after[j] == before[pj]);
    }
    assert forall|i: int| 0 <= i < after.len() implies id_issued(#[trigger] after[i].id_source@, count) by {
        let pi = if i == a {
            b
        } else if i == b {
            a
        } else {
            i
        };
        assert(after[i] == before[pi]);
    }
}

proof fn lemma_removed_keeps_wf(before: Seq<PlotComponent>, r: int, count: nat)
    requires
        0 <= r < before.len(),
        axes_distinct(before),
        ids_distinct(before),
        ids_issued(before, count),
    ensures
        axes_distinct(before.remove(r)),
        ids_distinct(before.remove(r)),
        ids_issued(before.remove(r), count),
{
    let after = before.remove(r);
    assert forall|i: int, j: int|
        0 <= i < after.len() && 0 <= j < after.len() && i != j implies !(after[i].x_var
            == after[j].x_var && after[i].y_var == after[j].y_var) && after[i].id_source@
            != after[j].id_source@ by {
        let pi = if i < r {
            i
        } else {
            i + 1
        };
        let pj = if j < r {
            j
        } else {
            j + 1
        };
        assert(after[i] == before[pi]);
        assert(after[j] == before[pj]);
    }
    assert forall|i: int| 0 <= i < after.len() implies id_issued(#[trigger] after[i].id_source@, count) by {
        let pi = if i < r {
            i
        } else {
            i + 1
        };
        assert(after[i] == before[pi]);
    }
}

proof fn lemma_pushed_keeps_wf(before: Seq<PlotComponent>, after: Seq<PlotComponent>, count: nat)
    requires
        count >= 1,
        after.len() == before.len() + 1,
        after.drop_last() == before,
        after.last().id_source@ == plot_id(count),
        !has_plot_of(before, after.last().x_var, after.last().y_var),
        axes_distinct(before),
        ids_distinct(before),
        ids_issued(before, (count - 1) as nat),
    ensures
        axes_distinct(after),
        ids_distinct(after),
        ids_issued(after, count),
{
    let n = before.len() as int;
    assert forall|i: int| 0 <= i < n implies after[i] == before[i] by {
        assert(after.drop_last()[i] == after[i]);
    }
    assert forall|i: int| 0 <= i < n implies after[i].id_source@ != after[n].id_source@ && !(
    after[i].x_var == after[n].x_var && after[i].y_var == after[n].y_var) by {
        assert(after[i] == before[i]);
        lemma_fresh_id(before[i].id_source@, (count - 1) as nat);
    }
    assert forall|i: int| 0 <= i < after.len() implies id_issued(#[trigger] after[i].id_source@, count) by {
        if i < n {
            assert(after[i] == before[i]);
            lemma_issued_grows(before[i].id_source@, (count - 1) as nat, count);
        } else {
            assert(plot_id(count) == after[i].id_source@);
        }
    }
}

} // verus!
