//! Shortening of CSS class names: every class that the style sheets define
//! gets a short alias, and the alias takes the place of the class in style
//! sheets, pages and scripts.

use crate::lexical::{ascending, before, insert_ascending, lemma_before_irreflexive};
use crate::rewrite::{rewrite, rewritten, Rule};
use crate::text::{
    all_from_chars, find_from, find_str, from_chars, is_listed, is_word_start, join, joined,
    lemma_find_from, lemma_run_end, listed, occurs_at, push_all, push_range, push_str, run_end,
    same_chars, skip_run, split_words, string_views, to_chars, vec_at, vec_views, word_start, words,
    CharClass,
};
use vstd::prelude::*;

verus! {

/// The letter that stands for `d`: `a` to `z` for 0 to 25, `A` to `Z` for 26
/// to 51.
pub open spec fn letter(d: int) -> char {
    if d < 26 {
        (97 + d) as char
    } else {
        (65 + d - 26) as char
    }
}

/// The short name with the number `n`: the names are `a`, …, `z`, `A`, …,
/// `Z`, `aa`, `ab`, … — all names of one letter, then all of two, and so on,
/// each length in alphabet order.
pub open spec fn short_name(n: nat) -> Seq<char>
    decreases n,
{
    if n < 52 {
        seq![letter(n as int)]
    } else {
        short_name((n / 52 - 1) as nat).push(letter((n % 52) as int))
    }
}

/// A short name has at least one letter, and more than one from the number
/// 52 on.
pub proof fn lemma_short_name_len(n: nat)
    ensures
        short_name(n).len() >= 1,
        n >= 52 ==> short_name(n).len() >= 2,
    decreases n,
{
    if n >= 52 {
        lemma_short_name_len((n / 52 - 1) as nat);
    }
}

/// Different numbers have different short names.
pub proof fn lemma_short_name_injective(a: nat, b: nat)
    requires
        short_name(a) == short_name(b),
    ensures
        a == b,
    decreases a,
{
    lemma_short_name_len(a);
    lemma_short_name_len(b);
    if a < 52 && b < 52 {
        assert(seq![letter(a as int)][0] == letter(a as int));
    } else if a >= 52 && b >= 52 {
        let pa = short_name((a / 52 - 1) as nat);
        let pb = short_name((b / 52 - 1) as nat);
        let la = letter((a % 52) as int);
        let lb = letter((b % 52) as int);
        assert(pa.push(la).last() == pb.push(lb).last());
        assert(pa.push(la).drop_last() == pa);
        assert(pb.push(lb).drop_last() == pb);
        lemma_short_name_injective((a / 52 - 1) as nat, (b / 52 - 1) as nat);
    }
}

fn letter_of(d: usize) -> (c: char)
    requires
        d < 52,
    ensures
        c == letter(d as int),
{
    if d < 26 {
        (97u8 + d as u8) as char
    } else {
        (65u8 + (d - 26) as u8) as char
    }
}

fn short_name_chars(index: usize) -> (name: Vec<char>)
    ensures
        name@ == short_name(index as nat),
    decreases index,
{
    if index < 52 {
        let mut name: Vec<char> = Vec::new();
        name.push(letter_of(index));
        name
    } else {
        let mut name = short_name_chars(index / 52 - 1);
        name.push(letter_of(index % 52));
        name
    }
}

/// The short name with the number `index`.
pub fn generate_short_name(index: usize) -> (name: String)
    ensures
        name@ == short_name(index as nat),
{
    from_chars(&short_name_chars(index))
}

/// The first index at or after `from` at which `t` stands in `list`, or the
/// length of `list`.
pub open spec fn position(list: Seq<Seq<char>>, t: Seq<char>, from: int) -> int
    decreases list.len() - from,
{
    if from < 0 || from >= list.len() {
        list.len() as int
    } else if list[from] == t {
        from
    } else {
        position(list, t, from + 1)
    }
}

/// `position` finds the first occurrence, if there is one.
pub proof fn lemma_position(list: Seq<Seq<char>>, t: Seq<char>, from: int)
    requires
        0 <= from <= list.len(),
    ensures
        from <= position(list, t, from) <= list.len(),
        position(list, t, from) < list.len() ==> list[position(list, t, from)] == t,
        forall|k: int| from <= k < position(list, t, from) ==> #[trigger] list[k] != t,
    decreases list.len() - from,
{
    if from < list.len() && list[from] != t {
        lemma_position(list, t, from + 1);
    }
}

/// A set of class names, kept in dictionary order.
pub struct ClassSet {
    names: Vec<Vec<char>>,
}

impl ClassSet {
    /// The names are in ascending order, each once.
    #[verifier::type_invariant]
    spec fn in_order(&self) -> bool {
        ascending(vec_views(self.names@))
    }

    /// The names, in dictionary order.
    pub closed spec fn ordered(&self) -> Seq<Seq<char>> {
        vec_views(self.names@)
    }

    /// `name` is in the set.
    pub open spec fn has(&self, name: Seq<char>) -> bool {
        listed(self.ordered(), name)
    }

    /// The empty set.
    pub fn new() -> (set: ClassSet)
        ensures
            set.ordered().len() == 0,
    {
        let names: Vec<Vec<char>> = Vec::new();
        ClassSet { names }
    }

    fn add(&mut self, name: Vec<char>)
        ensures
            forall|u: Seq<char>| #[trigger] final(self).has(u) <==> (u == name@ || old(self).has(u)),
    {
        proof {
            use_type_invariant(&*self);
        }
        let mut names: Vec<Vec<char>> = Vec::new();
        std::mem::swap(&mut names, &mut self.names);
        insert_ascending(&mut names, name);
        self.names = names;
    }

    /// Adds `name` to the set.
    pub fn insert(&mut self, name: &str)
        ensures
            forall|u: Seq<char>| #[trigger] final(self).has(u) <==> (u == name@ || old(self).has(u)),
    {
        self.add(to_chars(name));
    }

    /// Tells whether `name` is in the set.
    pub fn contains(&self, name: &str) -> (r: bool)
        ensures
            r == self.has(name@),
    {
        is_listed(&self.names, &to_chars(name))
    }

    /// The number of names.
    pub fn len(&self) -> (n: usize)
        ensures
            n == self.ordered().len(),
    {
        self.names.len()
    }

    /// Tells whether the set is empty.
    pub fn is_empty(&self) -> (r: bool)
        ensures
            r == (self.ordered().len() == 0),
    {
        self.names.len() == 0
    }

    /// The names, in dictionary order.
    pub fn names(&self) -> (list: Vec<String>)
        ensures
            string_views(list@) == self.ordered(),
            ascending(self.ordered()),
    {
        proof {
            use_type_invariant(self);
        }
        all_from_chars(&self.names)
    }

    /// Adds every name of `other` to the set.
    pub fn extend(&mut self, other: &ClassSet)
        ensures
            forall|u: Seq<char>| #[trigger] final(self).has(u) <==> (other.has(u) || old(self).has(u)),
    {
        let mut n: usize = 0;
        while n < other.names.len()
            invariant
                n <= other.names.len(),
                forall|u: Seq<char>|
                    #[trigger] self.has(u) <==> (listed(other.ordered().take(n as int), u) || old(
                        self,
                    ).has(u)),
            decreases other.names.len() - n,
        {
            let ghost now = other.ordered().take(n + 1);
            let mut name: Vec<char> = Vec::new();
            push_all(&mut name, &other.names[n]);
            let ghost added = name@;
            self.add(name);
            proof {
                assert forall|u: Seq<char>| #[trigger]
                    self.has(u) <==> (listed(now, u) || old(self).has(u)) by {
                    if u == added {
                        assert(now[n as int] == u);
                    }
                }
            }
            n += 1;
        }
        assert(other.ordered().take(n as int) == other.ordered());
    }
}

/// Where the class selector that starts at `i` ends: a `.`, a letter or `_`,
/// and the word characters that follow.
pub open spec fn selector_end(s: Seq<char>, i: int) -> Option<int> {
    if 0 <= i && i + 1 < s.len() && s[i] == '.' && is_word_start(s[i + 1]) {
        Some(run_end(s, i + 2, CharClass::Word))
    } else {
        None
    }
}

/// The class names of the selectors in `s[i..]`, in order of appearance.
pub open spec fn selectors_from(s: Seq<char>, i: int) -> Seq<Seq<char>>
    decreases s.len() - i,
{
    if i < 0 || i >= s.len() {
        Seq::empty()
    } else {
        match selector_end(s, i) {
            Some(e) => if i < e <= s.len() {
                seq![s.subrange(i + 1, e)] + selectors_from(s, e)
            } else {
                selectors_from(s, i + 1)
            },
            None => selectors_from(s, i + 1),
        }
    }
}

fn find_selector(s: &Vec<char>, i: usize) -> (r: Option<usize>)
    requires
        i < s.len(),
    ensures
        match r {
            Some(e) => selector_end(s@, i as int) == Some(e as int) && i + 1 < e <= s.len(),
            None => selector_end(s@, i as int) is None,
        },
{
    if s.len() - i > 1 && s[i] == '.' && word_start(s[i + 1]) {
        Some(skip_run(s, i + 2, CharClass::Word))
    } else {
        None
    }
}

/// Collects the class names of all class selectors in a style sheet.
pub fn extract_classes_from_css(css: &str) -> (classes: ClassSet)
    ensures
        forall|u: Seq<char>| classes.has(u) <==> listed(selectors_from(css@, 0), u),
{
    let s = to_chars(css);
    let mut classes = ClassSet::new();
    let mut i: usize = 0;
    let ghost all = selectors_from(s@, 0);
    let ghost mut seen: Seq<Seq<char>> = Seq::empty();
    while i < s.len()
        invariant
            i <= s.len(),
            seen + selectors_from(s@, i as int) == all,
            forall|u: Seq<char>| #[trigger] classes.has(u) <==> listed(seen, u),
        decreases s.len() - i,
    {
        match find_selector(&s, i) {
            Some(e) => {
                let mut name: Vec<char> = Vec::new();
                push_range(&mut name, &s, i + 1, e);
                let ghost added = name@;
                classes.add(name);
                proof {
                    let next = seen.push(added);
                    assert forall|u: Seq<char>| #[trigger] classes.has(u) <==> listed(next, u) by {
                        if listed(seen, u) {
                            let k = choose|k: int| 0 <= k < seen.len() && seen[k] == u;
                            assert(next[k] == u);
                        }
                        if u == added {
                            assert(next[seen.len() as int] == u);
                        }
                    }
                    seen = next;
                }
                i = e;
            },
            None => {
                i += 1;
            },
        }
    }
    classes
}

/// A class with its alias.
pub struct ClassEntry {
    pub name: Vec<char>,
    pub alias: Vec<char>,
}

/// A mapping from class names to aliases.
pub struct ClassMap {
    /// The entries; where a name stands twice, the first entry counts.
    pub entries: Vec<ClassEntry>,
}

impl ClassMap {
    /// The names of the entries, in order.
    pub open spec fn names(&self) -> Seq<Seq<char>> {
        Seq::new(self.entries.len() as nat, |k: int| self.entries@[k].name@)
    }

    /// The alias of `name`, if it has one.
    pub open spec fn alias_of(&self, name: Seq<char>) -> Option<Seq<char>> {
        let k = position(self.names(), name, 0);
        if 0 <= k < self.entries.len() {
            Some(self.entries@[k].alias@)
        } else {
            None
        }
    }

    /// The mapping without any name.
    pub fn new() -> (map: ClassMap)
        ensures
            map.names().len() == 0,
            forall|u: Seq<char>| map.alias_of(u) is None,
    {
        ClassMap { entries: Vec::new() }
    }

    fn index_of(&self, name: &Vec<char>) -> (k: usize)
        ensures
            k == position(self.names(), name@, 0),
            k <= self.entries.len(),
    {
        let ghost list = self.names();
        let mut k: usize = 0;
        while k < self.entries.len() && !same_chars(&self.entries[k].name, name)
            invariant
                k <= self.entries.len(),
                list == self.names(),
                position(list, name@, 0) == position(list, name@, k as int),
            decreases self.entries.len() - k,
        {
            k += 1;
        }
        k
    }

    /// Gives `name` the alias `alias`, in place of the one it had, if any.
    pub fn insert(&mut self, name: &str, alias: &str)
        ensures
            final(self).alias_of(name@) == Some(alias@),
            forall|u: Seq<char>| u != name@ ==> final(self).alias_of(u) == old(self).alias_of(u),
    {
        let entry = ClassEntry { name: to_chars(name), alias: to_chars(alias) };
        let k = self.index_of(&entry.name);
        let ghost before = self.names();
        proof {
            lemma_position(before, name@, 0);
        }
        if k < self.entries.len() {
            self.entries.set(k, entry);
            proof {
                assert(self.names() =~= before);
                assert forall|u: Seq<char>| u != name@ implies self.alias_of(u) == old(
                    self,
                ).alias_of(u) by {
                    lemma_position(before, u, 0);
                }
            }
        } else {
            self.entries.push(entry);
            proof {
                assert(self.names() =~= before.push(name@));
                lemma_position_push(before, name@, name@);
                assert forall|u: Seq<char>| u != name@ implies self.alias_of(u) == old(
                    self,
                ).alias_of(u) by {
                    lemma_position_push(before, name@, u);
                }
            }
        }
    }

    /// Looks up the alias of `name`.
    pub fn get(&self, name: &Vec<char>) -> (alias: Option<&Vec<char>>)
        ensures
            match alias {
                Some(a) => self.alias_of(name@) == Some(a@),
                None => self.alias_of(name@) is None,
            },
    {
        let k = self.index_of(name);
        if k < self.entries.len() {
            Some(&self.entries[k].alias)
        } else {
            None
        }
    }

    /// Tells whether the mapping has no name.
    pub fn is_empty(&self) -> (r: bool)
        ensures
            r == (self.names().len() == 0),
    {
        self.entries.len() == 0
    }
}

/// What `position` finds in a list that got one text more at its end.
pub proof fn lemma_position_push(list: Seq<Seq<char>>, added: Seq<char>, t: Seq<char>)
    ensures
        position(list, t, 0) < list.len() ==> position(list.push(added), t, 0) == position(
            list,
            t,
            0,
        ),
        position(list, t, 0) >= list.len() && added == t ==> position(list.push(added), t, 0)
            == list.len(),
        position(list, t, 0) >= list.len() && added != t ==> position(list.push(added), t, 0)
            == list.len() + 1,
{
    lemma_position_push_from(list, added, t, 0);
}

proof fn lemma_position_push_from(list: Seq<Seq<char>>, added: Seq<char>, t: Seq<char>, from: int)
    requires
        0 <= from <= list.len(),
    ensures
        position(list, t, from) < list.len() ==> position(list.push(added), t, from) == position(
            list,
            t,
            from,
        ),
        position(list, t, from) >= list.len() && added == t ==> position(
            list.push(added),
            t,
            from,
        ) == list.len(),
        position(list, t, from) >= list.len() && added != t ==> position(
            list.push(added),
            t,
            from,
        ) == list.len() + 1,
    decreases list.len() - from,
{
    let more = list.push(added);
    if from < list.len() {
        if list[from] != t {
            lemma_position_push_from(list, added, t, from + 1);
        }
    } else {
        assert(position(more, t, from + 1) == more.len());
    }
}

/// In an ascending list every text stands at its own position only.
pub proof fn lemma_position_ascending(list: Seq<Seq<char>>, k: int)
    requires
        ascending(list),
        0 <= k < list.len(),
    ensures
        position(list, list[k], 0) == k,
{
    lemma_position(list, list[k], 0);
    let p = position(list, list[k], 0);
    if p < k {
        lemma_before_irreflexive(list[k]);
    }
}

/// The mapping numbers the classes in dictionary order: its names ascend, and
/// each has the short name of its number as its alias.
pub open spec fn is_numbering(map: &ClassMap) -> bool {
    &&& ascending(map.names())
    &&& forall|k: int|
        0 <= k < map.names().len() ==> map.alias_of(#[trigger] map.names()[k]) == Some(
            short_name(k as nat),
        )
}

/// A numbering gives different classes different aliases.
pub proof fn lemma_numbering_injective(map: &ClassMap, u: Seq<char>, v: Seq<char>)
    requires
        is_numbering(map),
        map.alias_of(u) is Some,
        map.alias_of(u) == map.alias_of(v),
    ensures
        u == v,
{
    let names = map.names();
    lemma_position(names, u, 0);
    lemma_position(names, v, 0);
    let pu = position(names, u, 0);
    let pv = position(names, v, 0);
    lemma_short_name_injective(pu as nat, pv as nat);
}

/// Numbers the classes in dictionary order and gives each the short name of
/// its number. Every class of the set gets an alias, and no two get the same.
pub fn build_class_map(classes: &ClassSet) -> (map: ClassMap)
    ensures
        map.names() == classes.ordered(),
        is_numbering(&map),
        forall|u: Seq<char>| classes.has(u) <==> map.alias_of(u) is Some,
        forall|u: Seq<char>, v: Seq<char>|
            map.alias_of(u) is Some && map.alias_of(u) == map.alias_of(v) ==> u == v,
{
    proof {
        use_type_invariant(classes);
    }
    let mut map = ClassMap { entries: Vec::new() };
    let ghost all = classes.ordered();
    let mut k: usize = 0;
    while k < classes.names.len()
        invariant
            k <= classes.names.len(),
            all == vec_views(classes.names@),
            map.entries.len() == k,
            forall|m: int| 0 <= m < k ==> (#[trigger] map.entries@[m]).name@ == all[m],
            forall|m: int|
                0 <= m < k ==> (#[trigger] map.entries@[m]).alias@ == short_name(m as nat),
        decreases classes.names.len() - k,
    {
        let mut name: Vec<char> = Vec::new();
        push_all(&mut name, &classes.names[k]);
        map.entries.push(ClassEntry { name, alias: short_name_chars(k) });
        k += 1;
    }
    proof {
        assert(map.names() =~= all);
        assert forall|k: int| 0 <= k < all.len() implies map.alias_of(#[trigger] all[k]) == Some(
            short_name(k as nat),
        ) by {
            lemma_position_ascending(all, k);
        }
        assert forall|u: Seq<char>, v: Seq<char>|
            map.alias_of(u) is Some && map.alias_of(u) == map.alias_of(v) implies u == v by {
            lemma_numbering_injective(&map, u, v);
        }
    }
    map
}

/// The name that a class is written with under the mapping: its alias, or
/// the class itself where it has none.
pub open spec fn renamed(map: &ClassMap, class: Seq<char>) -> Seq<char> {
    match map.alias_of(class) {
        Some(alias) => alias,
        None => class,
    }
}

/// Each class of the list, renamed.
pub open spec fn all_renamed(map: &ClassMap, classes: Seq<Seq<char>>) -> Seq<Seq<char>> {
    Seq::new(classes.len(), |k: int| renamed(map, classes[k]))
}

/// One class of the list has an alias.
pub open spec fn any_aliased(map: &ClassMap, classes: Seq<Seq<char>>) -> bool {
    exists|k: int| 0 <= k < classes.len() && map.alias_of(#[trigger] classes[k]) is Some
}

/// A list of classes separated by white space, renamed: the renamed classes
/// with one space between each two, or nothing where no class of the list
/// has an alias.
pub open spec fn class_list_renamed(map: &ClassMap, list: Seq<char>) -> Option<Seq<char>> {
    let classes = words(list, CharClass::NonSpace);
    if any_aliased(map, classes) {
        Some(joined(all_renamed(map, classes), " "@))
    } else {
        None
    }
}

fn rename_class_list(list: &Vec<char>, class_map: &ClassMap) -> (out: Option<Vec<char>>)
    ensures
        match out {
            Some(t) => class_list_renamed(class_map, list@) == Some(t@),
            None => class_list_renamed(class_map, list@) is None,
        },
{
    let classes = split_words(list, CharClass::NonSpace);
    let ghost all = vec_views(classes@);
    let mut changed = false;
    let mut parts: Vec<Vec<char>> = Vec::new();
    let mut k: usize = 0;
    while k < classes.len()
        invariant
            k <= classes.len(),
            all == vec_views(classes@),
            parts.len() == k,
            forall|m: int| 0 <= m < k ==> (#[trigger] parts@[m])@ == renamed(class_map, all[m]),
            changed <==> exists|m: int| 0 <= m < k && class_map.alias_of(#[trigger] all[m]) is Some,
        decreases classes.len() - k,
    {
        assert(all[k as int] == classes@[k as int]@);
        let mut part: Vec<char> = Vec::new();
        match class_map.get(&classes[k]) {
            Some(alias) => {
                changed = true;
                push_all(&mut part, alias);
            },
            None => {
                push_all(&mut part, &classes[k]);
            },
        }
        parts.push(part);
        k += 1;
    }
    if changed {
        let out = join(&parts, " ");
        assert(vec_views(parts@) =~= all_renamed(class_map, all));
        Some(out)
    } else {
        None
    }
}

/// Renames the classes of a list separated by white space. Returns nothing
/// where no class of the list has an alias.
pub fn replace_space_separated_classes(classes_str: &str, class_map: &ClassMap) -> (out: Option<
    String,
>)
    ensures
        match out {
            Some(t) => class_list_renamed(class_map, classes_str@) == Some(t@),
            None => class_list_renamed(class_map, classes_str@) is None,
        },
{
    match rename_class_list(&to_chars(classes_str), class_map) {
        Some(t) => Some(from_chars(&t)),
        None => None,
    }
}

/// Matches a class selector and writes the class's alias in place of the
/// class. A selector whose class has no alias stays as it is.
pub struct CssClasses<'a> {
    pub map: &'a ClassMap,
}

impl<'a> Rule for CssClasses<'a> {
    open spec fn match_end(&self, s: Seq<char>, i: int) -> Option<int> {
        selector_end(s, i)
    }

    open spec fn replacement(&self, s: Seq<char>, i: int, e: int) -> Seq<char> {
        match self.map.alias_of(s.subrange(i + 1, e)) {
            Some(alias) => seq!['.'] + alias,
            None => s.subrange(i, e),
        }
    }

    fn find(&self, s: &Vec<char>, i: usize) -> (r: Option<usize>) {
        find_selector(s, i)
    }

    fn emit(&self, s: &Vec<char>, i: usize, e: usize, out: &mut Vec<char>) {
        let mut name: Vec<char> = Vec::new();
        push_range(&mut name, s, i + 1, e);
        match self.map.get(&name) {
            Some(alias) => {
                out.push('.');
                push_all(out, alias);
            },
            None => {
                push_range(out, s, i, e);
            },
        }
    }
}

/// A style sheet with every class that has an alias written as its alias.
pub open spec fn css_renamed(map: &ClassMap, css: Seq<char>) -> Seq<char> {
    rewritten(&CssClasses { map }, css)
}

fn rename_css(css: &Vec<char>, class_map: &ClassMap) -> (out: Vec<char>)
    ensures
        out@ == css_renamed(class_map, css@),
{
    rewrite(&CssClasses { map: class_map }, css)
}

/// Writes aliases in place of the classes of all class selectors in a style
/// sheet.
pub fn replace_classes_in_css(css: &str, class_map: &ClassMap) -> (out: String)
    ensures
        out@ == css_renamed(class_map, css@),
{
    from_chars(&rename_css(&to_chars(css), class_map))
}

/// A quote character of a script.
#[derive(Clone, Copy, Debug)]
pub enum Quote {
    Single,
    Double,
}

/// The character of a quote.
pub open spec fn quote_char(q: Quote) -> char {
    match q {
        Quote::Single => '\'',
        Quote::Double => '"',
    }
}

impl Quote {
    /// The character of the quote.
    pub fn as_char(&self) -> (c: char)
        ensures
            c == quote_char(*self),
    {
        match self {
            Quote::Single => '\'',
            Quote::Double => '"',
        }
    }
}

/// A place where a quoted list of classes stands.
#[derive(Clone, Copy, Debug)]
pub enum ListSite {
    /// A `class` attribute in markup: `class = "…"`, with either quote and
    /// with white space allowed around the `=`.
    MarkupAttribute,
    /// An assignment to `className` in a script: `.className = '…'`.
    ClassNameAssignment(Quote),
    /// A `class` attribute in markup that a script holds: `class='…'`.
    ScriptAttribute(Quote),
}

/// The text that a site starts with.
pub open spec fn site_prefix(site: ListSite) -> Seq<char> {
    match site {
        ListSite::MarkupAttribute => "class"@,
        ListSite::ClassNameAssignment(_) => ".className"@,
        ListSite::ScriptAttribute(_) => "class="@,
    }
}

/// Whether a `=` with white space around it follows the prefix of a site.
pub open spec fn site_has_assignment(site: ListSite) -> bool {
    match site {
        ListSite::MarkupAttribute => true,
        ListSite::ClassNameAssignment(_) => true,
        ListSite::ScriptAttribute(_) => false,
    }
}

/// Whether `c` can open and close the list of a site.
pub open spec fn site_quote(site: ListSite, c: char) -> bool {
    match site {
        ListSite::MarkupAttribute => c == '"' || c == '\'',
        ListSite::ClassNameAssignment(q) => c == quote_char(q),
        ListSite::ScriptAttribute(q) => c == quote_char(q),
    }
}

/// The characters that the list of a site is made of.
pub open spec fn site_value_class(site: ListSite) -> CharClass {
    match site {
        ListSite::MarkupAttribute => CharClass::ExceptQuotes,
        ListSite::ClassNameAssignment(q) => CharClass::Except(quote_char(q)),
        ListSite::ScriptAttribute(q) => CharClass::Except(quote_char(q)),
    }
}

/// What a site is rewritten to, up to and with the opening quote.
pub open spec fn site_head(site: ListSite) -> Seq<char> {
    match site {
        ListSite::MarkupAttribute => "class=\""@,
        ListSite::ClassNameAssignment(Quote::Single) => ".className = '"@,
        ListSite::ClassNameAssignment(Quote::Double) => ".className = \""@,
        ListSite::ScriptAttribute(Quote::Single) => "class='"@,
        ListSite::ScriptAttribute(Quote::Double) => "class=\""@,
    }
}

/// The closing quote that a rewritten site gets.
pub open spec fn site_tail(site: ListSite) -> char {
    match site {
        ListSite::MarkupAttribute => '"',
        ListSite::ClassNameAssignment(q) => quote_char(q),
        ListSite::ScriptAttribute(q) => quote_char(q),
    }
}

/// Where the list of the site that starts at `i` begins: behind the prefix,
/// the `=` with the white space around it where the site has one, and the
/// opening quote.
pub open spec fn list_start(site: ListSite, s: Seq<char>, i: int) -> Option<int> {
    let p = i + site_prefix(site).len();
    let a = run_end(s, p, CharClass::Space);
    let b = if site_has_assignment(site) {
        run_end(s, a + 1, CharClass::Space)
    } else {
        p
    };
    if occurs_at(s, i, site_prefix(site)) && (site_has_assignment(site) ==> a < s.len() && s[a]
        == '=') && 0 <= b < s.len() && site_quote(site, s[b]) {
        Some(b + 1)
    } else {
        None
    }
}

/// Where the list that begins at `v` ends: at the next quote of the site.
pub open spec fn list_end(site: ListSite, s: Seq<char>, v: int) -> int {
    run_end(s, v, site_value_class(site))
}

impl ListSite {
    fn prefix(&self) -> (p: &'static str)
        ensures
            p@ == site_prefix(*self),
    {
        match self {
            ListSite::MarkupAttribute => "class",
            ListSite::ClassNameAssignment(_) => ".className",
            ListSite::ScriptAttribute(_) => "class=",
        }
    }

    fn has_assignment(&self) -> (r: bool)
        ensures
            r == site_has_assignment(*self),
    {
        match self {
            ListSite::ScriptAttribute(_) => false,
            _ => true,
        }
    }

    fn is_quote(&self, c: char) -> (r: bool)
        ensures
            r == site_quote(*self, c),
    {
        match self {
            ListSite::MarkupAttribute => c == '"' || c == '\'',
            ListSite::ClassNameAssignment(q) => c == q.as_char(),
            ListSite::ScriptAttribute(q) => c == q.as_char(),
        }
    }

    fn value_class(&self) -> (k: CharClass)
        ensures
            k == site_value_class(*self),
    {
        match self {
            ListSite::MarkupAttribute => CharClass::ExceptQuotes,
            ListSite::ClassNameAssignment(q) => CharClass::Except(q.as_char()),
            ListSite::ScriptAttribute(q) => CharClass::Except(q.as_char()),
        }
    }

    fn head(&self) -> (h: &'static str)
        ensures
            h@ == site_head(*self),
    {
        match self {
            ListSite::MarkupAttribute => "class=\"",
            ListSite::ClassNameAssignment(Quote::Single) => ".className = '",
            ListSite::ClassNameAssignment(Quote::Double) => ".className = \"",
            ListSite::ScriptAttribute(Quote::Single) => "class='",
            ListSite::ScriptAttribute(Quote::Double) => "class=\"",
        }
    }

    fn tail(&self) -> (c: char)
        ensures
            c == site_tail(*self),
    {
        match self {
            ListSite::MarkupAttribute => '"',
            ListSite::ClassNameAssignment(q) => q.as_char(),
            ListSite::ScriptAttribute(q) => q.as_char(),
        }
    }

    fn find_list_start(&self, s: &Vec<char>, i: usize) -> (r: Option<usize>)
        requires
            i < s.len(),
        ensures
            match r {
                Some(v) => list_start(*self, s@, i as int) == Some(v as int) && i < v <= s.len(),
                None => list_start(*self, s@, i as int) is None,
            },
    {
        let prefix = to_chars(self.prefix());
        if !vec_at(s, i, &prefix) {
            return None;
        }
        let p = i + prefix.len();
        let b = if self.has_assignment() {
            let a = skip_run(s, p, CharClass::Space);
            if a >= s.len() || s[a] != '=' {
                return None;
            }
            skip_run(s, a + 1, CharClass::Space)
        } else {
            p
        };
        if b < s.len() && self.is_quote(s[b]) {
            Some(b + 1)
        } else {
            None
        }
    }
}

/// Matches a quoted list of classes at a site and writes the site anew, with
/// the list renamed. A site whose list has no class with an alias stays as it
/// is.
pub struct QuotedLists<'a> {
    pub site: ListSite,
    pub map: &'a ClassMap,
}

impl<'a> Rule for QuotedLists<'a> {
    open spec fn match_end(&self, s: Seq<char>, i: int) -> Option<int> {
        match list_start(self.site, s, i) {
            Some(v) => if list_end(self.site, s, v) < s.len() {
                Some(list_end(self.site, s, v) + 1)
            } else {
                None
            },
            None => None,
        }
    }

    open spec fn replacement(&self, s: Seq<char>, i: int, e: int) -> Seq<char> {
        match class_list_renamed(self.map, s.subrange(list_start(self.site, s, i)->0, e - 1)) {
            Some(list) => site_head(self.site) + list + seq![site_tail(self.site)],
            None => s.subrange(i, e),
        }
    }

    fn find(&self, s: &Vec<char>, i: usize) -> (r: Option<usize>) {
        match self.site.find_list_start(s, i) {
            Some(v) => {
                let c = skip_run(s, v, self.site.value_class());
                if c < s.len() {
                    Some(c + 1)
                } else {
                    None
                }
            },
            None => None,
        }
    }

    fn emit(&self, s: &Vec<char>, i: usize, e: usize, out: &mut Vec<char>) {
        match self.site.find_list_start(s, i) {
            Some(v) => {
                proof {
                    lemma_run_end(s@, v as int, site_value_class(self.site));
                }
                let mut list: Vec<char> = Vec::new();
                push_range(&mut list, s, v, e - 1);
                match rename_class_list(&list, self.map) {
                    Some(renamed) => {
                        push_str(out, self.site.head());
                        push_all(out, &renamed);
                        out.push(self.site.tail());
                    },
                    None => {
                        push_range(out, s, i, e);
                    },
                }
            },
            None => {},
        }
    }
}

/// Markup with the classes of every `class` attribute renamed.
pub open spec fn html_renamed(map: &ClassMap, html: Seq<char>) -> Seq<char> {
    rewritten(&QuotedLists { site: ListSite::MarkupAttribute, map }, html)
}

/// Renames the classes in the `class` attributes of markup.
pub fn replace_classes_in_html(html: &str, class_map: &ClassMap) -> (out: String)
    ensures
        out@ == html_renamed(class_map, html@),
{
    let s = to_chars(html);
    let out = rewrite(&QuotedLists { site: ListSite::MarkupAttribute, map: class_map }, &s);
    from_chars(&out)
}

/// What stands before a class selector in a script.
#[derive(Clone, Copy, Debug)]
pub enum Lead {
    /// One of the quotes `'`, `"` and `` ` ``: the selector opens a string.
    AnyQuote,
    /// A space: the selector follows another one.
    Space,
}

/// Whether `c` is a lead of the given kind.
pub open spec fn is_lead(lead: Lead, c: char) -> bool {
    match lead {
        Lead::AnyQuote => c == '\'' || c == '"' || c == '`',
        Lead::Space => c == ' ',
    }
}

/// Matches a lead and the class selector behind it, and writes the class's
/// alias in place of the class. A selector whose class has no alias stays as
/// it is.
pub struct Selectors<'a> {
    pub lead: Lead,
    pub map: &'a ClassMap,
}

impl<'a> Rule for Selectors<'a> {
    open spec fn match_end(&self, s: Seq<char>, i: int) -> Option<int> {
        if 0 <= i < s.len() && is_lead(self.lead, s[i]) {
            selector_end(s, i + 1)
        } else {
            None
        }
    }

    open spec fn replacement(&self, s: Seq<char>, i: int, e: int) -> Seq<char> {
        match self.map.alias_of(s.subrange(i + 2, e)) {
            Some(alias) => seq![s[i], '.'] + alias,
            None => s.subrange(i, e),
        }
    }

    fn find(&self, s: &Vec<char>, i: usize) -> (r: Option<usize>) {
        let c = s[i];
        let lead = match self.lead {
            Lead::AnyQuote => c == '\'' || c == '"' || c == '`',
            Lead::Space => c == ' ',
        };
        if lead && i + 1 < s.len() {
            find_selector(s, i + 1)
        } else {
            None
        }
    }

    fn emit(&self, s: &Vec<char>, i: usize, e: usize, out: &mut Vec<char>) {
        proof {
            lemma_run_end(s@, i + 3, CharClass::Word);
        }
        let mut name: Vec<char> = Vec::new();
        push_range(&mut name, s, i + 2, e);
        match self.map.get(&name) {
            Some(alias) => {
                out.push(s[i]);
                out.push('.');
                push_all(out, alias);
            },
            None => {
                push_range(out, s, i, e);
            },
        }
    }
}

/// Where the name of the `classList` method that starts at `p` ends: the name
/// is one of `add`, `remove`, `toggle` and `contains`.
pub open spec fn method_end(s: Seq<char>, p: int) -> Option<int> {
    if occurs_at(s, p, "add"@) {
        Some(p + "add"@.len())
    } else if occurs_at(s, p, "remove"@) {
        Some(p + "remove"@.len())
    } else if occurs_at(s, p, "toggle"@) {
        Some(p + "toggle"@.len())
    } else if occurs_at(s, p, "contains"@) {
        Some(p + "contains"@.len())
    } else {
        None
    }
}

/// Where the argument of the `classList` call that starts at `i` begins:
/// behind `classList.`, the method's name, the `(` with the white space
/// around it, and the opening quote.
pub open spec fn call_argument(q: Quote, s: Seq<char>, i: int) -> Option<int> {
    match method_end(s, i + "classList."@.len()) {
        Some(m) => {
            let a = run_end(s, m, CharClass::Space);
            let b = run_end(s, a + 1, CharClass::Space);
            if occurs_at(s, i, "classList."@) && 0 <= a < s.len() && s[a] == '(' && 0 <= b
                < s.len() && s[b] == quote_char(q) {
                Some(b + 1)
            } else {
                None
            }
        },
        None => None,
    }
}

fn find_method_end(s: &Vec<char>, p: usize) -> (r: Option<usize>)
    requires
        p <= s.len(),
    ensures
        match r {
            Some(m) => method_end(s@, p as int) == Some(m as int) && p <= m <= s.len(),
            None => method_end(s@, p as int) is None,
        },
{
    let add = to_chars("add");
    let remove = to_chars("remove");
    let toggle = to_chars("toggle");
    let contains = to_chars("contains");
    if vec_at(s, p, &add) {
        Some(p + add.len())
    } else if vec_at(s, p, &remove) {
        Some(p + remove.len())
    } else if vec_at(s, p, &toggle) {
        Some(p + toggle.len())
    } else if vec_at(s, p, &contains) {
        Some(p + contains.len())
    } else {
        None
    }
}

fn find_call_argument(q: Quote, s: &Vec<char>, i: usize) -> (r: Option<usize>)
    requires
        i < s.len(),
    ensures
        match r {
            Some(v) => call_argument(q, s@, i as int) == Some(v as int) && i < v <= s.len(),
            None => call_argument(q, s@, i as int) is None,
        },
{
    let prefix = to_chars("classList.");
    if !vec_at(s, i, &prefix) {
        return None;
    }
    match find_method_end(s, i + prefix.len()) {
        Some(m) => {
            let a = skip_run(s, m, CharClass::Space);
            if a >= s.len() || s[a] != '(' {
                return None;
            }
            let b = skip_run(s, a + 1, CharClass::Space);
            if b < s.len() && s[b] == q.as_char() {
                Some(b + 1)
            } else {
                None
            }
        },
        None => None,
    }
}

/// Matches a call of a `classList` method with a quoted list of classes as
/// its first argument, up to the white space behind the closing quote, and
/// writes the call anew with the list renamed: `classList.`, the method's
/// name, `(`, and the quoted list. A call whose list has no class with an
/// alias stays as it is.
pub struct ClassListCalls<'a> {
    pub quote: Quote,
    pub map: &'a ClassMap,
}

impl<'a> Rule for ClassListCalls<'a> {
    open spec fn match_end(&self, s: Seq<char>, i: int) -> Option<int> {
        match call_argument(self.quote, s, i) {
            Some(v) => {
                let c = run_end(s, v, CharClass::Except(quote_char(self.quote)));
                if c < s.len() {
                    Some(run_end(s, c + 1, CharClass::Space))
                } else {
                    None
                }
            },
            None => None,
        }
    }

    open spec fn replacement(&self, s: Seq<char>, i: int, e: int) -> Seq<char> {
        let v = call_argument(self.quote, s, i)->0;
        let c = run_end(s, v, CharClass::Except(quote_char(self.quote)));
        let p = i + "classList."@.len();
        match class_list_renamed(self.map, s.subrange(v, c)) {
            Some(list) => "classList."@ + s.subrange(p, method_end(s, p)->0) + seq![
                '(',
                quote_char(self.quote),
            ] + list + seq![quote_char(self.quote)],
            None => s.subrange(i, e),
        }
    }

    fn find(&self, s: &Vec<char>, i: usize) -> (r: Option<usize>) {
        match find_call_argument(self.quote, s, i) {
            Some(v) => {
                let c = skip_run(s, v, CharClass::Except(self.quote.as_char()));
                if c < s.len() {
                    Some(skip_run(s, c + 1, CharClass::Space))
                } else {
                    None
                }
            },
            None => None,
        }
    }

    fn emit(&self, s: &Vec<char>, i: usize, e: usize, out: &mut Vec<char>) {
        let prefix = to_chars("classList.");
        match find_call_argument(self.quote, s, i) {
            Some(v) => {
                let c = skip_run(s, v, CharClass::Except(self.quote.as_char()));
                let mut list: Vec<char> = Vec::new();
                push_range(&mut list, s, v, c);
                match rename_class_list(&list, self.map) {
                    Some(renamed) => {
                        let p = i + prefix.len();
                        match find_method_end(s, p) {
                            Some(m) => {
                                push_str(out, "classList.");
                                push_range(out, s, p, m);
                                out.push('(');
                                out.push(self.quote.as_char());
                                push_all(out, &renamed);
                                out.push(self.quote.as_char());
                                assert(out@ == old(out)@ + ("classList."@ + s@.subrange(
                                    p as int,
                                    m as int,
                                ) + seq!['(', quote_char(self.quote)] + renamed@ + seq![
                                    quote_char(self.quote),
                                ]));
                            },
                            None => {},
                        }
                    },
                    None => {
                        push_range(out, s, i, e);
                    },
                }
            },
            None => {},
        }
    }
}

/// Where the class name in the branch of a conditional expression that
/// starts at `i` begins: behind the `?` or `:`, the white space after it and
/// the opening quote.
pub open spec fn branch_name(q: Quote, s: Seq<char>, i: int) -> Option<int> {
    let a = run_end(s, i + 1, CharClass::Space);
    if 0 <= i < s.len() && (s[i] == '?' || s[i] == ':') && 0 <= a && a + 1 < s.len() && s[a]
        == quote_char(q) && is_word_start(s[a + 1]) {
        Some(a + 1)
    } else {
        None
    }
}

fn find_branch_name(q: Quote, s: &Vec<char>, i: usize) -> (r: Option<usize>)
    requires
        i < s.len(),
    ensures
        match r {
            Some(v) => branch_name(q, s@, i as int) == Some(v as int) && i + 1 < v < s.len(),
            None => branch_name(q, s@, i as int) is None,
        },
{
    if s[i] != '?' && s[i] != ':' {
        return None;
    }
    let a = skip_run(s, i + 1, CharClass::Space);
    if a < s.len() && s.len() - a > 1 && s[a] == q.as_char() && word_start(s[a + 1]) {
        Some(a + 1)
    } else {
        None
    }
}

/// Matches the branch of a conditional expression that is a quoted class
/// name, `? 'name'` or `: 'name'`, and writes it anew with the alias of the
/// class: the `?` or `:`, one space, and the quoted alias. A branch whose
/// class has no alias stays as it is.
pub struct Branches<'a> {
    pub quote: Quote,
    pub map: &'a ClassMap,
}

impl<'a> Rule for Branches<'a> {
    open spec fn match_end(&self, s: Seq<char>, i: int) -> Option<int> {
        match branch_name(self.quote, s, i) {
            Some(v) => {
                let c = run_end(s, v + 1, CharClass::Word);
                if 0 <= c < s.len() && s[c] == quote_char(self.quote) {
                    Some(c + 1)
                } else {
                    None
                }
            },
            None => None,
        }
    }

    open spec fn replacement(&self, s: Seq<char>, i: int, e: int) -> Seq<char> {
        match self.map.alias_of(s.subrange(branch_name(self.quote, s, i)->0, e - 1)) {
            Some(alias) => seq![s[i], ' ', quote_char(self.quote)] + alias + seq![
                quote_char(self.quote),
            ],
            None => s.subrange(i, e),
        }
    }

    fn find(&self, s: &Vec<char>, i: usize) -> (r: Option<usize>) {
        match find_branch_name(self.quote, s, i) {
            Some(v) => {
                let c = skip_run(s, v + 1, CharClass::Word);
                if c < s.len() && s[c] == self.quote.as_char() {
                    Some(c + 1)
                } else {
                    None
                }
            },
            None => None,
        }
    }

    fn emit(&self, s: &Vec<char>, i: usize, e: usize, out: &mut Vec<char>) {
        match find_branch_name(self.quote, s, i) {
            Some(v) => {
                proof {
                    lemma_run_end(s@, v + 1, CharClass::Word);
                }
                let mut name: Vec<char> = Vec::new();
                push_range(&mut name, s, v, e - 1);
                match self.map.get(&name) {
                    Some(alias) => {
                        out.push(s[i]);
                        out.push(' ');
                        out.push(self.quote.as_char());
                        push_all(out, alias);
                        out.push(self.quote.as_char());
                    },
                    None => {
                        push_range(out, s, i, e);
                    },
                }
            },
            None => {},
        }
    }
}

/// A script with its classes renamed, pass after pass: selectors behind a
/// quote, selectors behind a space, `classList` calls with single and with
/// double quotes, assignments to `className` with single and with double
/// quotes, `class` attributes with double and with single quotes, and the
/// branches of conditional expressions with single and with double quotes.
pub open spec fn js_renamed(map: &ClassMap, js: Seq<char>) -> Seq<char> {
    let s1 = rewritten(&Selectors { lead: Lead::AnyQuote, map }, js);
    let s2 = rewritten(&Selectors { lead: Lead::Space, map }, s1);
    let s3 = rewritten(&ClassListCalls { quote: Quote::Single, map }, s2);
    let s4 = rewritten(&ClassListCalls { quote: Quote::Double, map }, s3);
    let s5 = rewritten(
        &QuotedLists { site: ListSite::ClassNameAssignment(Quote::Single), map },
        s4,
    );
    let s6 = rewritten(
        &QuotedLists { site: ListSite::ClassNameAssignment(Quote::Double), map },
        s5,
    );
    let s7 = rewritten(&QuotedLists { site: ListSite::ScriptAttribute(Quote::Double), map }, s6);
    let s8 = rewritten(&QuotedLists { site: ListSite::ScriptAttribute(Quote::Single), map }, s7);
    let s9 = rewritten(&Branches { quote: Quote::Single, map }, s8);
    rewritten(&Branches { quote: Quote::Double, map }, s9)
}

fn rename_js(js: &Vec<char>, class_map: &ClassMap) -> (out: Vec<char>)
    ensures
        out@ == js_renamed(class_map, js@),
{
    let map = class_map;
    let s1 = rewrite(&Selectors { lead: Lead::AnyQuote, map }, js);
    let s2 = rewrite(&Selectors { lead: Lead::Space, map }, &s1);
    let s3 = rewrite(&ClassListCalls { quote: Quote::Single, map }, &s2);
    let s4 = rewrite(&ClassListCalls { quote: Quote::Double, map }, &s3);
    let s5 = rewrite(
        &QuotedLists { site: ListSite::ClassNameAssignment(Quote::Single), map },
        &s4,
    );
    let s6 = rewrite(
        &QuotedLists { site: ListSite::ClassNameAssignment(Quote::Double), map },
        &s5,
    );
    let s7 = rewrite(&QuotedLists { site: ListSite::ScriptAttribute(Quote::Double), map }, &s6);
    let s8 = rewrite(&QuotedLists { site: ListSite::ScriptAttribute(Quote::Single), map }, &s7);
    let s9 = rewrite(&Branches { quote: Quote::Single, map }, &s8);
    rewrite(&Branches { quote: Quote::Double, map }, &s9)
}

/// Renames the classes in a script: in selectors, in `classList` calls, in
/// assignments to `className`, in `class` attributes of markup that the
/// script holds, and in the branches of conditional expressions.
pub fn replace_classes_in_js(js: &str, class_map: &ClassMap) -> (out: String)
    ensures
        out@ == js_renamed(class_map, js@),
{
    from_chars(&rename_js(&to_chars(js), class_map))
}

/// An element whose content is rewritten as a whole.
#[derive(Clone, Copy, Debug)]
pub enum Block {
    /// A `style` element: a style sheet.
    Style,
    /// A `script` element: a script.
    Script,
}

/// The start of the opening tag of a block.
pub open spec fn block_open(block: Block) -> Seq<char> {
    match block {
        Block::Style => "<style"@,
        Block::Script => "<script"@,
    }
}

/// The closing tag of a block.
pub open spec fn block_close(block: Block) -> Seq<char> {
    match block {
        Block::Style => "</style>"@,
        Block::Script => "</script>"@,
    }
}

/// Where the content of the block that starts at `i` begins: behind the `>`
/// that ends the opening tag.
pub open spec fn block_content(block: Block, s: Seq<char>, i: int) -> Option<int> {
    let g = run_end(s, i + block_open(block).len(), CharClass::Except('>'));
    if occurs_at(s, i, block_open(block)) && 0 <= g < s.len() {
        Some(g + 1)
    } else {
        None
    }
}

impl Block {
    fn open(&self) -> (t: &'static str)
        ensures
            t@ == block_open(*self),
    {
        match self {
            Block::Style => "<style",
            Block::Script => "<script",
        }
    }

    fn close(&self) -> (t: &'static str)
        ensures
            t@ == block_close(*self),
    {
        match self {
            Block::Style => "</style>",
            Block::Script => "</script>",
        }
    }

    fn find_content(&self, s: &Vec<char>, i: usize) -> (r: Option<usize>)
        requires
            i < s.len(),
        ensures
            match r {
                Some(v) => block_content(*self, s@, i as int) == Some(v as int) && i < v
                    <= s.len(),
                None => block_content(*self, s@, i as int) is None,
            },
    {
        let open = to_chars(self.open());
        if !vec_at(s, i, &open) {
            return None;
        }
        let g = skip_run(s, i + open.len(), CharClass::Except('>'));
        if g < s.len() {
            Some(g + 1)
        } else {
            None
        }
    }
}

/// Matches a block, from its opening tag to the first closing tag behind it,
/// and renames the classes in its content. A style element loses the
/// attributes of its opening tag; a script element keeps its opening tag.
pub struct Blocks<'a> {
    pub block: Block,
    pub map: &'a ClassMap,
}

impl<'a> Rule for Blocks<'a> {
    open spec fn match_end(&self, s: Seq<char>, i: int) -> Option<int> {
        match block_content(self.block, s, i) {
            Some(v) => {
                let k = find_from(s, v, block_close(self.block));
                if k < s.len() {
                    Some(k + block_close(self.block).len())
                } else {
                    None
                }
            },
            None => None,
        }
    }

    open spec fn replacement(&self, s: Seq<char>, i: int, e: int) -> Seq<char> {
        let v = block_content(self.block, s, i)->0;
        let content = s.subrange(v, e - block_close(self.block).len());
        match self.block {
            Block::Style => "<style>"@ + css_renamed(self.map, content) + "</style>"@,
            Block::Script => s.subrange(i, v) + js_renamed(self.map, content) + "</script>"@,
        }
    }

    fn find(&self, s: &Vec<char>, i: usize) -> (r: Option<usize>) {
        match self.block.find_content(s, i) {
            Some(v) => {
                let k = find_str(s, v, self.block.close());
                proof {
                    lemma_find_from(s@, v as int, block_close(self.block));
                }
                if k < s.len() {
                    let close = to_chars(self.block.close());
                    Some(k + close.len())
                } else {
                    None
                }
            },
            None => None,
        }
    }

    fn emit(&self, s: &Vec<char>, i: usize, e: usize, out: &mut Vec<char>) {
        match self.block.find_content(s, i) {
            Some(v) => {
                proof {
                    lemma_find_from(s@, v as int, block_close(self.block));
                }
                let close = to_chars(self.block.close());
                let mut content: Vec<char> = Vec::new();
                push_range(&mut content, s, v, e - close.len());
                match self.block {
                    Block::Style => {
                        let renamed = rename_css(&content, self.map);
                        push_str(out, "<style>");
                        push_all(out, &renamed);
                        push_str(out, "</style>");
                    },
                    Block::Script => {
                        let renamed = rename_js(&content, self.map);
                        push_range(out, s, i, v);
                        push_all(out, &renamed);
                        push_str(out, "</script>");
                    },
                }
            },
            None => {},
        }
    }
}

/// Markup with the classes in the style sheets of its `style` elements
/// renamed.
pub open spec fn styles_renamed(map: &ClassMap, html: Seq<char>) -> Seq<char> {
    rewritten(&Blocks { block: Block::Style, map }, html)
}

/// Markup with the classes in the scripts of its `script` elements renamed.
pub open spec fn scripts_renamed(map: &ClassMap, html: Seq<char>) -> Seq<char> {
    rewritten(&Blocks { block: Block::Script, map }, html)
}

/// Renames the classes in the style sheets that markup holds in `style`
/// elements.
pub fn replace_classes_in_inline_styles(html: &str, class_map: &ClassMap) -> (out: String)
    ensures
        out@ == styles_renamed(class_map, html@),
{
    let s = to_chars(html);
    from_chars(&rewrite(&Blocks { block: Block::Style, map: class_map }, &s))
}

/// Renames the classes in the scripts that markup holds in `script`
/// elements.
pub fn replace_classes_in_inline_scripts(html: &str, class_map: &ClassMap) -> (out: String)
    ensures
        out@ == scripts_renamed(class_map, html@),
{
    let s = to_chars(html);
    from_chars(&rewrite(&Blocks { block: Block::Script, map: class_map }, &s))
}

/// A page with all its classes renamed: in `class` attributes, then in
/// `style` elements, then in `script` elements.
pub open spec fn page_renamed(map: &ClassMap, html: Seq<char>) -> Seq<char> {
    scripts_renamed(map, styles_renamed(map, html_renamed(map, html)))
}

/// The assets of a site after the classes were shortened, with the mapping
/// that was used.
pub struct MinifiedAssets {
    pub map: ClassMap,
    pub css: Vec<String>,
    pub html: Vec<String>,
    pub js: Vec<String>,
}

/// `u` is the class of a selector in one of the style sheets.
pub open spec fn defined_in(sheets: Seq<Seq<char>>, u: Seq<char>) -> bool {
    exists|f: int| 0 <= f < sheets.len() && listed(selectors_from(#[trigger] sheets[f], 0), u)
}

/// Shortens the class names of a site. The classes are those of the class
/// selectors in the style sheets; they are numbered in dictionary order, and
/// each gets the short name of its number. Style sheets, pages and scripts
/// are rewritten with these aliases. Where the style sheets define no class,
/// everything stays as it is.
pub fn minify_css_classes(css_files: &Vec<String>, html_files: &Vec<String>, js_files: &Vec<
    String,
>) -> (out: MinifiedAssets)
    ensures
        is_numbering(&out.map),
        forall|u: Seq<char>|
            out.map.alias_of(u) is Some <==> defined_in(string_views(css_files@), u),
        out.css.len() == css_files.len(),
        out.html.len() == html_files.len(),
        out.js.len() == js_files.len(),
        out.map.names().len() == 0 ==> string_views(out.css@) == string_views(css_files@)
            && string_views(out.html@) == string_views(html_files@) && string_views(out.js@)
            == string_views(js_files@),
        out.map.names().len() > 0 ==> (forall|f: int|
            0 <= f < css_files.len() ==> (#[trigger] out.css@[f])@ == css_renamed(
                &out.map,
                css_files@[f]@,
            )) && (forall|f: int|
            0 <= f < html_files.len() ==> (#[trigger] out.html@[f])@ == page_renamed(
                &out.map,
                html_files@[f]@,
            )) && (forall|f: int|
            0 <= f < js_files.len() ==> (#[trigger] out.js@[f])@ == js_renamed(
                &out.map,
                js_files@[f]@,
            )),
{
    let mut all = ClassSet::new();
    let ghost sheets = string_views(css_files@);
    let mut f: usize = 0;
    while f < css_files.len()
        invariant
            f <= css_files.len(),
            sheets == string_views(css_files@),
            forall|u: Seq<char>| #[trigger] all.has(u) <==> defined_in(sheets.take(f as int), u),
        decreases css_files.len() - f,
    {
        let found = extract_classes_from_css(css_files[f].as_str());
        all.extend(&found);
        proof {
            let after = sheets.take(f + 1);
            assert(after[f as int] == css_files@[f as int]@);
        }
        f += 1;
    }
    assert(sheets.take(f as int) == sheets);
    let map = build_class_map(&all);
    let mut css: Vec<String> = Vec::new();
    let mut html: Vec<String> = Vec::new();
    let mut js: Vec<String> = Vec::new();
    let empty = all.is_empty();
    let mut f: usize = 0;
    while f < css_files.len()
        invariant
            f <= css_files.len(),
            css.len() == f,
            empty ==> forall|g: int| 0 <= g < f ==> (#[trigger] css@[g])@ == css_files@[g]@,
            !empty ==> forall|g: int|
                0 <= g < f ==> (#[trigger] css@[g])@ == css_renamed(&map, css_files@[g]@),
        decreases css_files.len() - f,
    {
        if empty {
            css.push(css_files[f].clone());
        } else {
            css.push(replace_classes_in_css(css_files[f].as_str(), &map));
        }
        f += 1;
    }
    let mut f: usize = 0;
    while f < html_files.len()
        invariant
            f <= html_files.len(),
            html.len() == f,
            empty ==> forall|g: int| 0 <= g < f ==> (#[trigger] html@[g])@ == html_files@[g]@,
            !empty ==> forall|g: int|
                0 <= g < f ==> (#[trigger] html@[g])@ == page_renamed(&map, html_files@[g]@),
        decreases html_files.len() - f,
    {
        if empty {
            html.push(html_files[f].clone());
        } else {
            let attributes = replace_classes_in_html(html_files[f].as_str(), &map);
            let styles = replace_classes_in_inline_styles(attributes.as_str(), &map);
            html.push(replace_classes_in_inline_scripts(styles.as_str(), &map));
        }
        f += 1;
    }
    let mut f: usize = 0;
    while f < js_files.len()
        invariant
            f <= js_files.len(),
            js.len() == f,
            empty ==> forall|g: int| 0 <= g < f ==> (#[trigger] js@[g])@ == js_files@[g]@,
            !empty ==> forall|g: int|
                0 <= g < f ==> (#[trigger] js@[g])@ == js_renamed(&map, js_files@[g]@),
        decreases js_files.len() - f,
    {
        if empty {
            js.push(js_files[f].clone());
        } else {
            js.push(replace_classes_in_js(js_files[f].as_str(), &map));
        }
        f += 1;
    }
    proof {
        assert forall|u: Seq<char>|
            map.alias_of(u) is Some <==> defined_in(string_views(css_files@), u) by {
            assert(all.has(u) <==> map.alias_of(u) is Some);
        }
    }
    MinifiedAssets { map, css, html, js }
}

} // verus!
