//! Resolution of a configuration into a colour table.
use vstd::prelude::*;
use vstd::string::StringExecFns;
use crate::color::{color_of_value, duplicate_entries, expect_color, Color, Error, GetResult, State};
use crate::config::{Config, Section, Value, ValueV};
use crate::map::lookup;
use crate::text::{lower_of, lowercase, same_text};
use crate::x11::{color_table, picked_colors, X11};

verus! {

/// A field of a block, or failing that a defined value.
pub open spec fn field_or_defined(field: Option<Value>, defined: Seq<(Seq<char>, Value)>, name: Seq<char>) -> Option<Value> {
    match field {
        Some(v) => Some(v),
        None => lookup(defined, name),
    }
}

/// The colour that `name` gives: the block's own field where it writes a
/// colour, else an already resolved colour of that name.
pub open spec fn color_for(field: Option<Value>, colors: Seq<(Seq<char>, Color)>, name: Seq<char>) -> Option<Color> {
    match field {
        Some(v) => match color_of_value(v) {
            Some(c) => Some(c),
            None => lookup(colors, name),
        },
        None => lookup(colors, name),
    }
}

/// Typed lookups of the fields of a block, falling back on the resolver's
/// state.
pub trait Getter {
    /// The first field called `name`.
    spec fn field(&self, name: Seq<char>) -> Option<Value>;

    fn get(&self, name: &str) -> (r: Option<&Value>)
        ensures
            r is None <==> self.field(name@) is None,
            r matches Some(v) ==> self.field(name@) == Some(*v),
    ;

    /// The string held by the field, or by the defined value, of that name.
    fn get_str(&self, state: &State, name: &str) -> (r: GetResult<String>)
        ensures
            match field_or_defined(self.field(name@), state.defined@, name@) {
                Some(Value::Str(s)) => r matches GetResult::Found(t) && t@ == s@,
                Some(_) => r matches GetResult::Expected(k) && k@ == "string"@,
                None => r is NotFound,
            },
    {
        let v = match self.get(name) {
            Some(v) => Some(v),
            None => state.defined.get(name),
        };
        match v {
            Some(Value::Str(s)) => GetResult::Found(s.clone()),
            Some(_) => GetResult::Expected(String::from_str("string")),
            None => GetResult::NotFound,
        }
    }

    /// The colour that the field of that name writes, else the resolved
    /// colour of that name.
    fn get_color(&self, state: &State, name: &str) -> (r: GetResult<Color>)
        ensures
            match color_for(self.field(name@), state.colors@, name@) {
                Some(c) => r == GetResult::Found(c),
                None => if self.field(name@) is Some {
                    r matches GetResult::Expected(k) && k@ == "color"@
                } else {
                    r is NotFound
                },
            },
    {
        let mut is_some = false;
        match self.get(name) {
            Some(v) => {
                is_some = true;
                match expect_color(v) {
                    Ok(c) => {
                        return GetResult::Found(c);
                    },
                    Err(_) => {},
                }
            },
            None => {},
        }
        match state.colors.get(name) {
            Some(c) => {
                return GetResult::Found(*c);
            },
            None => {},
        }
        if is_some {
            GetResult::Expected(String::from_str("color"))
        } else {
            GetResult::NotFound
        }
    }

    /// The path held by the field, or by the defined value, of that name.
    fn get_path(&self, state: &State, name: &str) -> (r: GetResult<String>)
        ensures
            match field_or_defined(self.field(name@), state.defined@, name@) {
                Some(Value::Path(s)) => r matches GetResult::Found(t) && t@ == s@,
                Some(_) => r matches GetResult::Expected(k) && k@ == "path"@,
                None => r is NotFound,
            },
    {
        let v = match self.get(name) {
            Some(v) => Some(v),
            None => state.defined.get(name),
        };
        match v {
            Some(Value::Path(s)) => GetResult::Found(s.clone()),
            Some(_) => GetResult::Expected(String::from_str("path")),
            None => GetResult::NotFound,
        }
    }
}

impl Getter for Section {
    open spec fn field(&self, name: Seq<char>) -> Option<Value> {
        lookup(self.0@, name)
    }

    fn get(&self, name: &str) -> (r: Option<&Value>) {
        self.values().get(name)
    }
}

/// The entry `name v` of a colour block, with a nested block expanded into
/// its fields, each named `<name>_<field>`.
pub open spec fn expand(name: Seq<char>, v: Value) -> Seq<(Seq<char>, Value)> {
    match v {
        Value::Section(s) => s.0@.map_values(|p: (Seq<char>, Value)| (name + seq!['_'] + p.0, p.1)),
        _ => seq![(name, v)],
    }
}

/// The entries of a colour block, nested blocks expanded one level.
pub open spec fn flatten(ps: Seq<(Seq<char>, Value)>) -> Seq<(Seq<char>, Value)>
    decreases ps.len(),
{
    if ps.len() == 0 {
        Seq::empty()
    } else {
        flatten(ps.drop_last()) + expand(ps.last().0, ps.last().1)
    }
}

/// The entries that write a colour directly, as named colours.
pub open spec fn direct_colors(fs: Seq<(Seq<char>, Value)>) -> Seq<(Seq<char>, Color)>
    decreases fs.len(),
{
    if fs.len() == 0 {
        Seq::empty()
    } else {
        let rest = direct_colors(fs.drop_last());
        match color_of_value(fs.last().1) {
            Some(c) => rest.push((fs.last().0, c)),
            None => rest,
        }
    }
}

/// The entries that name another colour: aliases, waiting to be resolved.
pub open spec fn aliases(fs: Seq<(Seq<char>, Value)>) -> Seq<(Seq<char>, Seq<char>)>
    decreases fs.len(),
{
    if fs.len() == 0 {
        Seq::empty()
    } else {
        let rest = aliases(fs.drop_last());
        match fs.last().1 {
            Value::Str(s) => rest.push((fs.last().0, s@)),
            _ => rest,
        }
    }
}

/// One pass over the waiting aliases, in order: each one whose target gives
/// a colour now is added to the table at once; the others wait, in order.
pub open spec fn pass(
    sec: Seq<(Seq<char>, Value)>,
    colors: Seq<(Seq<char>, Color)>,
    pending: Seq<(Seq<char>, Seq<char>)>,
) -> (Seq<(Seq<char>, Color)>, Seq<(Seq<char>, Seq<char>)>)
    decreases pending.len(),
{
    if pending.len() == 0 {
        (colors, Seq::empty())
    } else {
        let p = pending[0];
        match color_for(lookup(sec, p.1), colors, p.1) {
            Some(c) => pass(sec, colors.push((p.0, c)), pending.drop_first()),
            None => {
                let r = pass(sec, colors, pending.drop_first());
                (r.0, seq![p] + r.1)
            },
        }
    }
}

/// Passes over the waiting aliases until none is left or a pass resolves
/// none; what is still waiting then is dropped.
pub open spec fn fixpoint(
    sec: Seq<(Seq<char>, Value)>,
    colors: Seq<(Seq<char>, Color)>,
    pending: Seq<(Seq<char>, Seq<char>)>,
) -> Seq<(Seq<char>, Color)>
    decreases pending.len(),
{
    if pending.len() == 0 {
        colors
    } else {
        let r = pass(sec, colors, pending);
        if r.1.len() < pending.len() {
            fixpoint(sec, r.0, r.1)
        } else {
            r.0
        }
    }
}

/// The aliases still waiting when the passes stop.
pub open spec fn unresolved(
    sec: Seq<(Seq<char>, Value)>,
    colors: Seq<(Seq<char>, Color)>,
    pending: Seq<(Seq<char>, Seq<char>)>,
) -> Seq<(Seq<char>, Seq<char>)>
    decreases pending.len(),
{
    if pending.len() == 0 {
        Seq::empty()
    } else {
        let r = pass(sec, colors, pending);
        if r.1.len() < pending.len() {
            unresolved(sec, r.0, r.1)
        } else {
            r.1
        }
    }
}

/// The aliases of the colour block `sec` that never resolve, each with the
/// name it refers to.
pub open spec fn dropped_aliases(sec: Seq<(Seq<char>, Value)>, colors: Seq<(Seq<char>, Color)>) -> Seq<(Seq<char>, Seq<char>)> {
    let fs = flatten(sec);
    unresolved(sec, colors + direct_colors(fs), aliases(fs))
}

/// The colour table after the colour block `sec` is added to `colors`.
pub open spec fn resolve_colors(sec: Seq<(Seq<char>, Value)>, colors: Seq<(Seq<char>, Color)>) -> Seq<(Seq<char>, Color)> {
    let fs = flatten(sec);
    fixpoint(sec, colors + direct_colors(fs), aliases(fs))
}

pub open spec fn pending_view(v: Seq<(String, String)>) -> Seq<(Seq<char>, Seq<char>)> {
    v.map_values(|p: (String, String)| (p.0@, p.1@))
}

proof fn lemma_single(x: (Seq<char>, Value))
    ensures
        direct_colors(seq![x]) == match color_of_value(x.1) {
            Some(c) => seq![(x.0, c)],
            None => Seq::<(Seq<char>, Color)>::empty(),
        },
        aliases(seq![x]) == match x.1 {
            Value::Str(s) => seq![(x.0, s@)],
            _ => Seq::<(Seq<char>, Seq<char>)>::empty(),
        },
{
    let e = Seq::<(Seq<char>, Value)>::empty();
    assert(seq![x].drop_last() =~= e);
    assert(direct_colors(e) == Seq::<(Seq<char>, Color)>::empty());
    assert(aliases(e) == Seq::<(Seq<char>, Seq<char>)>::empty());
    assert(seq![x].last() == x);
    if let Some(c) = color_of_value(x.1) {
        assert(Seq::<(Seq<char>, Color)>::empty().push((x.0, c)) =~= seq![(x.0, c)]);
    }
    if let Value::Str(s) = x.1 {
        assert(Seq::<(Seq<char>, Seq<char>)>::empty().push((x.0, s@)) =~= seq![(x.0, s@)]);
    }
}

proof fn lemma_flat_step(fs: Seq<(Seq<char>, Value)>, x: (Seq<char>, Value))
    ensures
        direct_colors(fs.push(x)) == direct_colors(fs) + direct_colors(seq![x]),
        aliases(fs.push(x)) == aliases(fs) + aliases(seq![x]),
{
    lemma_single(x);
    assert(fs.push(x).drop_last() =~= fs);
    assert(fs.push(x).last() == x);
    assert(direct_colors(fs.push(x)) =~= direct_colors(fs) + direct_colors(seq![x]));
    assert(aliases(fs.push(x)) =~= aliases(fs) + aliases(seq![x]));
}

/// Files one entry of a colour block: a colour goes into the table, an alias
/// waits, anything else is dropped.
fn classify(state: &mut State, pending: &mut Vec<(String, String)>, name: String, value: &Value)
    ensures
        final(state).colors@ == old(state).colors@ + direct_colors(seq![(name@, *value)]),
        pending_view(final(pending)@) == pending_view(old(pending)@) + aliases(seq![(name@, *value)]),
        final(state).defined == old(state).defined,
{
    let ghost x = (name@, *value);
    proof {
        lemma_single(x);
    }
    match expect_color(value) {
        Ok(c) => {
            state.colors.insert(name, c);
            assert(pending_view(pending@) + Seq::empty() =~= pending_view(pending@));
            return;
        },
        Err(_) => {},
    }
    match value {
        Value::Str(s) => {
            let ghost before = pending@;
            pending.push((name, s.clone()));
            assert(pending_view(pending@) =~= pending_view(before) + aliases(seq![x]));
        },
        _ => {
            assert(pending_view(pending@) + Seq::empty() =~= pending_view(pending@));
        },
    }
    assert(state.colors@ + Seq::empty() =~= state.colors@);
}

/// One pass over the waiting aliases; returns those still waiting, and
/// whether any was resolved.
fn resolve_pass(section: &Section, state: &mut State, pending: &Vec<(String, String)>) -> (r: (
    Vec<(String, String)>,
    bool,
))
    ensures
        (final(state).colors@, pending_view(r.0@)) == pass(
            section.0@,
            old(state).colors@,
            pending_view(pending@),
        ),
        r.0@.len() <= pending@.len(),
        r.1 == (r.0@.len() < pending@.len()),
        final(state).defined == old(state).defined,
{
    let ghost sec = section.0@;
    let ghost all = pending_view(pending@);
    let ghost c0 = state.colors@;
    let mut kept: Vec<(String, String)> = Vec::new();
    let mut progress = false;
    let n = pending.len();
    let mut i: usize = 0;
    assert(all.skip(0) =~= all);
    assert(pending_view(kept@) + pass(sec, c0, all).1 =~= pass(sec, c0, all).1);
    while i < n
        invariant
            n == pending@.len(),
            sec == section.0@,
            all == pending_view(pending@),
            i <= n,
            kept@.len() <= i,
            progress == (kept@.len() < i),
            state.defined == old(state).defined,
            pass(sec, c0, all) == (
                pass(sec, state.colors@, all.skip(i as int)).0,
                pending_view(kept@) + pass(sec, state.colors@, all.skip(i as int)).1,
            ),
        decreases n - i,
    {
        let ghost rest = all.skip(i as int);
        assert(rest.drop_first() =~= all.skip(i + 1));
        assert(rest[0] == (pending@[i as int].0@, pending@[i as int].1@));
        let name = &pending[i].0;
        let alias = &pending[i].1;
        match section.get_color(&*state, alias.as_str()) {
            GetResult::Found(c) => {
                assert(section.field(alias@) == lookup(sec, alias@));
                assert(color_for(lookup(sec, rest[0].1), state.colors@, rest[0].1) == Some(c));
                state.colors.insert(name.clone(), c);
                assert(state.colors@.last() == (rest[0].0, c));
                progress = true;
            },
            _ => {
                let ghost before = kept@;
                kept.push((name.clone(), alias.clone()));
                assert(pending_view(kept@) =~= pending_view(before).push(rest[0]));
                let ghost tail = pass(sec, state.colors@, all.skip(i + 1)).1;
                assert(pending_view(before) + (seq![rest[0]] + tail) =~= pending_view(kept@) + tail);
            },
        }
        i = i + 1;
    }
    assert(all.skip(n as int) =~= Seq::<(Seq<char>, Seq<char>)>::empty());
    assert(pending_view(kept@) + Seq::empty() =~= pending_view(kept@));
    (kept, progress)
}

/// Adds the colours of a colour block to the table: direct colours at once,
/// then aliases by passes until none is left or a pass resolves none.
/// Returns the aliases that were dropped, each with the name it refers to.
pub fn process_colors(state: &mut State, section: &Section) -> (r: Vec<(String, String)>)
    ensures
        final(state).colors@ == resolve_colors(section.0@, old(state).colors@),
        pending_view(r@) == dropped_aliases(section.0@, old(state).colors@),
        final(state).defined == old(state).defined,
{
    let ghost sec = section.0@;
    let ghost c0 = state.colors@;
    let entries = section.values().entries();
    let mut pending: Vec<(String, String)> = Vec::new();
    let n = entries.len();
    let mut i: usize = 0;
    assert(sec.take(0) =~= Seq::<(Seq<char>, Value)>::empty());
    assert(pending_view(pending@) =~= Seq::<(Seq<char>, Seq<char>)>::empty());
    assert(c0 + Seq::empty() =~= c0);
    while i < n
        invariant
            n == entries@.len(),
            entries@ == section.0.0@,
            sec == section.0@,
            i <= n,
            state.colors@ == c0 + direct_colors(flatten(sec.take(i as int))),
            pending_view(pending@) == aliases(flatten(sec.take(i as int))),
            state.defined == old(state).defined,
        decreases n - i,
    {
        let ghost done = flatten(sec.take(i as int));
        let e = &entries[i];
        assert(sec[i as int] == (e.name@, e.value));
        assert(sec.take(i + 1).drop_last() =~= sec.take(i as int));
        assert(flatten(sec.take(i + 1)) == done + expand(e.name@, e.value));
        match &e.value {
            Value::Section(inner) => {
                let ghost ex = expand(e.name@, e.value);
                let subs = inner.values().entries();
                let m = subs.len();
                let mut j: usize = 0;
                assert(ex.take(0) =~= Seq::<(Seq<char>, Value)>::empty());
                assert(done + ex.take(0) =~= done);
                while j < m
                    invariant
                        m == subs@.len(),
                        subs@ == inner.0.0@,
                        ex.len() == m,
                        forall|k: int| 0 <= k < m ==> #[trigger] ex[k] == (e.name@ + seq!['_'] + subs@[k].name@, subs@[k].value),
                        j <= m,
                        state.colors@ == c0 + direct_colors(done + ex.take(j as int)),
                        pending_view(pending@) == aliases(done + ex.take(j as int)),
                        state.defined == old(state).defined,
                    decreases m - j,
                {
                    let se = &subs[j];
                    let mut sname = e.name.clone();
                    sname.append("_");
                    sname.append(se.name.as_str());
                    proof {
                        reveal_strlit("_");
                    }
                    assert(sname@ =~= e.name@ + seq!['_'] + se.name@);
                    let ghost x = (sname@, se.value);
                    assert(x == ex[j as int]);
                    let ghost pre = done + ex.take(j as int);
                    assert(done + ex.take(j + 1) =~= pre.push(x));
                    proof {
                        lemma_flat_step(pre, x);
                    }
                    classify(state, &mut pending, sname, &se.value);
                    assert(c0 + direct_colors(pre) + direct_colors(seq![x]) =~= c0 + direct_colors(pre.push(x)));
                    j = j + 1;
                }
                assert(ex.take(m as int) =~= ex);
            },
            _ => {
                let ghost x = (e.name@, e.value);
                assert(expand(e.name@, e.value) == seq![x]);
                assert(done + seq![x] =~= done.push(x));
                proof {
                    lemma_flat_step(done, x);
                }
                classify(state, &mut pending, e.name.clone(), &e.value);
                assert(c0 + direct_colors(done) + direct_colors(seq![x]) =~= c0 + direct_colors(done.push(x)));
            },
        }
        i = i + 1;
    }
    assert(sec.take(n as int) =~= sec);
    let ghost table = state.colors@;
    let ghost waiting = pending_view(pending@);
    let mut has_resolved = true;
    while has_resolved && pending.len() > 0
        invariant
            has_resolved ==> fixpoint(sec, table, waiting) == fixpoint(sec, state.colors@, pending_view(pending@)),
            !has_resolved ==> fixpoint(sec, table, waiting) == state.colors@,
            has_resolved ==> unresolved(sec, table, waiting) == unresolved(sec, state.colors@, pending_view(pending@)),
            !has_resolved ==> unresolved(sec, table, waiting) == pending_view(pending@),
            sec == section.0@,
            state.defined == old(state).defined,
        decreases pending@.len() + if has_resolved { 1int } else { 0int },
    {
        let (next, progress) = resolve_pass(section, state, &pending);
        pending = next;
        has_resolved = progress;
    }
    if has_resolved {
        assert(pending_view(pending@) =~= Seq::<(Seq<char>, Seq<char>)>::empty());
    }
    pending
}

/// Named values as mathematical values.
pub open spec fn values_view(ps: Seq<(Seq<char>, Value)>) -> Seq<(Seq<char>, ValueV)> {
    ps.map_values(|p: (Seq<char>, Value)| (p.0, p.1@))
}

proof fn lemma_lookup_view(ps: Seq<(Seq<char>, Value)>, name: Seq<char>)
    ensures
        lookup(values_view(ps), name) == match lookup(ps, name) {
            Some(v) => Some(v@),
            None => None::<ValueV>,
        },
    decreases ps.len(),
{
    if ps.len() > 0 {
        assert(values_view(ps).drop_first() =~= values_view(ps.drop_first()));
        lemma_lookup_view(ps.drop_first(), name);
    }
}

/// The program that a backend block names, or the defined one, or `initial`
/// where neither names a string.
pub open spec fn created_program(
    sec: Seq<(Seq<char>, Value)>,
    defined: Seq<(Seq<char>, ValueV)>,
    initial: Option<Seq<char>>,
) -> Option<Seq<char>> {
    match lookup(sec, "program"@) {
        Some(Value::Str(s)) => Some(s@),
        Some(_) => initial,
        None => match lookup(defined, "program"@) {
            Some(ValueV::Str(s)) => Some(s),
            _ => initial,
        },
    }
}

/// The output path that a backend block names, or the defined one.
pub open spec fn created_output(sec: Seq<(Seq<char>, Value)>, defined: Seq<(Seq<char>, ValueV)>) -> Option<Seq<char>> {
    match lookup(sec, "output"@) {
        Some(Value::Path(s)) => Some(s@),
        Some(_) => None,
        None => match lookup(defined, "output"@) {
            Some(ValueV::Path(s)) => Some(s),
            _ => None,
        },
    }
}

/// A backend as its program, output path and colours.
pub type ThemeV = (Option<Seq<char>>, Option<Seq<char>>, Seq<(Seq<char>, Color)>);

/// The backend made from block `sec` for `program`, with the colour table
/// `colors` and the defined values `defined`.
pub open spec fn created(
    sec: Seq<(Seq<char>, Value)>,
    colors: Seq<(Seq<char>, Color)>,
    defined: Seq<(Seq<char>, ValueV)>,
    program: Option<Seq<char>>,
) -> ThemeV {
    (created_program(sec, defined, program), created_output(sec, defined), picked_colors(sec, colors, color_table()))
}

pub open spec fn theme_view(x: X11) -> ThemeV {
    (x.spec_program(), x.spec_output(), x.spec_colors())
}

/// `x` is the backend made from block `sec` for `program` in `state`.
pub open spec fn is_created(x: X11, sec: Seq<(Seq<char>, Value)>, state: State, program: Option<Seq<char>>) -> bool {
    theme_view(x) == created(sec, state.colors@, values_view(state.defined@), program)
}

/// The keys of the backend blocks.
pub open spec fn is_theme_key(key: Seq<char>) -> bool {
    key == "x11"@ || key == "xresources"@ || key == "urxvt"@
}

/// Processes a block whose name, lowercased, is `key`: a backend block
/// (`x11`, `xresources`, or `urxvt` for a backend of the program `name`)
/// gives a backend, `define` or `defined` replaces the defined values,
/// `colors` adds colours; any other name is an unknown section.
pub fn dispatch_section(state: &mut State, key: &str, name: &str, section: &Section) -> (r: Result<Option<X11>, Error>)
    ensures
        (key@ == "x11"@ || key@ == "xresources"@) ==> (r matches Ok(Some(x)) && is_created(x, section.0@, *old(state), None)),
        key@ == "urxvt"@ ==> (r matches Ok(Some(x)) && is_created(x, section.0@, *old(state), Some(name@))),
        is_theme_key(key@) ==> *final(state) == *old(state),
        (key@ == "define"@ || key@ == "defined"@) ==> (r matches Ok(None)
            && values_view(final(state).defined@) == values_view(section.0@)
            && final(state).colors == old(state).colors),
        key@ == "colors"@ ==> (r matches Ok(None)
            && final(state).colors@ == resolve_colors(section.0@, old(state).colors@)
            && final(state).defined == old(state).defined),
        !is_theme_key(key@) && key@ != "define"@ && key@ != "defined"@ && key@ != "colors"@
            ==> (r matches Err(Error::UnknownSection(n)) && n@ == name@ && *final(state) == *old(state)),
{
    proof {
        reveal_strlit("x11");
        reveal_strlit("xresources");
        reveal_strlit("urxvt");
        reveal_strlit("define");
        reveal_strlit("defined");
        reveal_strlit("colors");
        assert("x11"@[0] == 'x' && "xresources"@[0] == 'x' && "urxvt"@[0] == 'u');
        assert("define"@[0] == 'd' && "defined"@[0] == 'd' && "colors"@[0] == 'c');
        assert("x11"@ != "urxvt"@ && "xresources"@ != "urxvt"@);
        assert("define"@ != "x11"@ && "define"@ != "xresources"@ && "define"@ != "urxvt"@);
        assert("defined"@ != "x11"@ && "defined"@ != "xresources"@ && "defined"@ != "urxvt"@);
        assert("colors"@ != "x11"@ && "colors"@ != "xresources"@ && "colors"@ != "urxvt"@);
        assert("colors"@ != "define"@ && "colors"@ != "defined"@);
    }
    proof {
        lemma_lookup_view(state.defined@, "program"@);
        lemma_lookup_view(state.defined@, "output"@);
    }
    if same_text(&key.to_owned(), "x11") || same_text(&key.to_owned(), "xresources") {
        let mut x11 = X11::new();
        match x11.create(state, section) {
            Ok(()) => Ok(Some(x11)),
            Err(e) => Err(e),
        }
    } else if same_text(&key.to_owned(), "urxvt") {
        let mut x11 = X11::program(name.to_owned());
        match x11.create(state, section) {
            Ok(()) => Ok(Some(x11)),
            Err(e) => Err(e),
        }
    } else if same_text(&key.to_owned(), "define") || same_text(&key.to_owned(), "defined") {
        state.defined = duplicate_entries(section.values());
        assert(values_view(state.defined@) =~= values_view(section.0@));
        Ok(None)
    } else if same_text(&key.to_owned(), "colors") {
        let _ = process_colors(state, section);
        Ok(None)
    } else {
        Err(Error::UnknownSection(name.to_owned()))
    }
}

/// Processes a block by its name, whatever its case.
pub fn process_section(state: &mut State, name: &str, section: &Section) -> (r: Result<Option<X11>, Error>)
    ensures
        (lower_of(name@) == "x11"@ || lower_of(name@) == "xresources"@) ==> (r matches Ok(Some(x))
            && is_created(x, section.0@, *old(state), None)),
        lower_of(name@) == "urxvt"@ ==> (r matches Ok(Some(x)) && is_created(x, section.0@, *old(state), Some(name@))),
        is_theme_key(lower_of(name@)) ==> *final(state) == *old(state),
        (lower_of(name@) == "define"@ || lower_of(name@) == "defined"@) ==> (r matches Ok(None)
            && values_view(final(state).defined@) == values_view(section.0@)
            && final(state).colors == old(state).colors),
        lower_of(name@) == "colors"@ ==> (r matches Ok(None)
            && final(state).colors@ == resolve_colors(section.0@, old(state).colors@)
            && final(state).defined == old(state).defined),
        !is_theme_key(lower_of(name@)) && lower_of(name@) != "define"@ && lower_of(name@) != "defined"@
            && lower_of(name@) != "colors"@ ==> (r matches Err(Error::UnknownSection(n)) && n@ == name@
            && *final(state) == *old(state)),
{
    let key = lowercase(name);
    dispatch_section(state, key.as_str(), name, section)
}

/// The state that a configuration resolves to: the `defined` block's values,
/// and the colour table of its `colors` block.
pub fn process_state(config: &Config) -> (r: State)
    ensures
        values_view(r.defined@) == base_defined(config.spec_sections()@),
        r.colors@ == base_colors(config.spec_sections()@),
{
    let mut state = State::new();
    match config.sections().get("defined") {
        Some(defined) => {
            let _ = dispatch_section(&mut state, "defined", "defined", defined);
        },
        None => {},
    }
    match config.sections().get("colors") {
        Some(colors) => {
            let _ = dispatch_section(&mut state, "colors", "colors", colors);
        },
        None => {},
    }
    state
}

/// A block that `process_config` hands to `process_section`: any but the
/// `colors` and `defined` blocks, which come first.
pub open spec fn is_later_section(name: Seq<char>) -> bool {
    name != "colors"@ && name != "defined"@
}

/// What the later blocks do, in order: the backends they make, and the
/// colour table and defined values after them. A backend block is made with
/// the table and defined values as they stand; a block named `colors` in
/// some case adds to the table, one named `define` or `defined` replaces the
/// defined values.
pub open spec fn later_run(
    secs: Seq<(Seq<char>, Section)>,
    colors: Seq<(Seq<char>, Color)>,
    defined: Seq<(Seq<char>, ValueV)>,
) -> (Seq<ThemeV>, Seq<(Seq<char>, Color)>, Seq<(Seq<char>, ValueV)>)
    decreases secs.len(),
{
    if secs.len() == 0 {
        (Seq::empty(), colors, defined)
    } else {
        let r = later_run(secs.drop_last(), colors, defined);
        let name = secs.last().0;
        let sec = secs.last().1;
        let key = lower_of(name);
        if !is_later_section(name) {
            r
        } else if key == "x11"@ || key == "xresources"@ {
            (r.0.push(created(sec.0@, r.1, r.2, None)), r.1, r.2)
        } else if key == "urxvt"@ {
            (r.0.push(created(sec.0@, r.1, r.2, Some(name))), r.1, r.2)
        } else if key == "colors"@ {
            (r.0, resolve_colors(sec.0@, r.1), r.2)
        } else if key == "define"@ || key == "defined"@ {
            (r.0, r.1, values_view(sec.0@))
        } else {
            r
        }
    }
}

/// The defined values of a configuration's `defined` block.
pub open spec fn base_defined(secs: Seq<(Seq<char>, Section)>) -> Seq<(Seq<char>, ValueV)> {
    match lookup(secs, "defined"@) {
        Some(d) => values_view(d.0@),
        None => Seq::empty(),
    }
}

/// The colour table of a configuration's `colors` block alone.
pub open spec fn base_colors(secs: Seq<(Seq<char>, Section)>) -> Seq<(Seq<char>, Color)> {
    match lookup(secs, "colors"@) {
        Some(c) => resolve_colors(c.0@, Seq::empty()),
        None => Seq::empty(),
    }
}

/// Resolves a configuration: the `defined` block, then the `colors` block,
/// then every other block in order, each backend block giving a backend.
/// Unknown blocks are skipped.
pub fn process_config(config: &mut Config) -> (r: Result<Vec<X11>, Error>)
    ensures
        *final(config) == *old(config),
        r matches Ok(v) && ({
            let secs = old(config).spec_sections()@;
            let run = later_run(secs, base_colors(secs), base_defined(secs));
            &&& v@.len() == run.0.len()
            &&& forall|i: int| 0 <= i < v@.len() ==> theme_view(#[trigger] v@[i]) == run.0[i]
        }),
{
    let mut result: Vec<X11> = Vec::new();
    let mut state = process_state(config);
    let entries = config.sections().entries();
    let ghost secs = config.spec_sections()@;
    let ghost c0 = state.colors@;
    let ghost d0 = values_view(state.defined@);
    let n = entries.len();
    let mut i: usize = 0;
    assert(secs.take(0) =~= Seq::<(Seq<char>, Section)>::empty());
    while i < n
        invariant
            n == entries@.len(),
            entries@ == config.spec_sections().0@,
            secs == config.spec_sections()@,
            i <= n,
            c0 == base_colors(secs),
            d0 == base_defined(secs),
            result@.len() == later_run(secs.take(i as int), c0, d0).0.len(),
            forall|k: int| 0 <= k < result@.len() ==> theme_view(#[trigger] result@[k]) == later_run(
                secs.take(i as int),
                c0,
                d0,
            ).0[k],
            state.colors@ == later_run(secs.take(i as int), c0, d0).1,
            values_view(state.defined@) == later_run(secs.take(i as int), c0, d0).2,
        decreases n - i,
    {
        let e = &entries[i];
        assert(secs[i as int] == (e.name@, e.value));
        assert(secs.take(i + 1).drop_last() =~= secs.take(i as int));
        proof {
            reveal_strlit("colors");
            reveal_strlit("defined");
        }
        if same_text(&e.name, "colors") || same_text(&e.name, "defined") {
            i = i + 1;
            continue;
        }
        match process_section(&mut state, e.name.as_str(), &e.value) {
            Ok(Some(theme)) => {
                let ghost before = result@;
                result.push(theme);
                assert(forall|k: int| 0 <= k < before.len() ==> result@[k] == before[k]);
            },
            Ok(None) => {},
            Err(Error::UnknownSection(_)) => {},
            Err(err) => {
                return Err(err);
            },
        }
        i = i + 1;
    }
    assert(secs.take(n as int) =~= secs);
    Ok(result)
}

} // verus!
