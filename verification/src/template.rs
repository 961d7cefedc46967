//! Templates: a format string is compiled once into literal and field
//! parts, and rendered any number of times.
//!
//! A field is written `{name}`. `{{` and `}}` stand for the braces
//! themselves, and a `{` that no `}` follows is a literal brace. A value
//! that takes the place of a field is written as it is: it is never read
//! as a template again.

use vstd::prelude::*;

verus! {

/// The format string that is used where none is given.
pub const DEFAULT_TEMPLATE: &'static str = "<{ip}|AS{asnnum}_{asnorg}|{country_iso}|{city}>";

/// What switches bold red on in a terminal.
pub const RED_ON: &'static str = "\x1b[1;31m";

/// What switches colour off in a terminal.
pub const RED_OFF: &'static str = "\x1b[0;0m";

/// The format string to work with: the one given, or the default where none
/// is given, and that between the marks for red where colour is wanted.
pub open spec fn chosen_format(given: Option<Seq<char>>, colour: bool) -> Seq<char> {
    let format = match given {
        Some(f) => f,
        None => DEFAULT_TEMPLATE@,
    };
    if colour {
        RED_ON@ + format + RED_OFF@
    } else {
        format
    }
}

/// Picks the format string to work with.
pub fn choose_format(given: Option<&str>, colour: bool) -> (r: String)
    ensures
        r@ == chosen_format(
            match given {
                Some(f) => Some(f@),
                None => None,
            },
            colour,
        ),
{
    let format = match given {
        Some(f) => f,
        None => DEFAULT_TEMPLATE,
    };
    if colour {
        let mut out = String::from_str(RED_ON);
        out.append(format);
        out.append(RED_OFF);
        out
    } else {
        String::from_str(format)
    }
}

/// The size that a field is reckoned to take in rendered output.
pub const FIELD_ESTIMATE: usize = 16;

/// One part of a compiled template.
#[derive(Clone, Debug)]
pub enum TemplatePart {
    Literal(String),
    Field(String),
}

/// What a part of a template holds.
pub enum PartView {
    Literal(Seq<char>),
    Field(Seq<char>),
}

/// One step of reading a format string: a character that stands for
/// itself, or the name of a field.
pub enum Token {
    Char(char),
    Field(Seq<char>),
}

/// A compiled template.
#[derive(Debug)]
pub struct Template {
    parts: Vec<TemplatePart>,
    estimated_size: usize,
}

/// The reason why a format string is no template.
#[derive(Debug)]
pub struct TemplateError {
    pub reason: String,
}

/// The values of named fields. A name that is set again takes the later
/// value.
#[derive(Clone, Debug)]
pub struct FieldTable {
    entries: Vec<(String, String)>,
}

impl View for TemplatePart {
    type V = PartView;

    open spec fn view(&self) -> PartView {
        match self {
            TemplatePart::Literal(s) => PartView::Literal(s@),
            TemplatePart::Field(s) => PartView::Field(s@),
        }
    }
}

/// What a sequence of parts holds.
pub open spec fn part_views(parts: Seq<TemplatePart>) -> Seq<PartView> {
    Seq::new(parts.len(), |i: int| parts[i]@)
}

impl View for Template {
    type V = Seq<PartView>;

    closed spec fn view(&self) -> Seq<PartView> {
        part_views(self.parts@)
    }
}

/// The first position at or after `from` that holds `c`, or the length of
/// the text where there is none.
pub open spec fn index_of_from(t: Seq<char>, c: char, from: int) -> int
    decreases t.len() - from,
{
    if from < 0 || from >= t.len() {
        t.len() as int
    } else if t[from] == c {
        from
    } else {
        index_of_from(t, c, from + 1)
    }
}

/// A token before the tokens of the rest, where the rest has any.
pub open spec fn prepend(token: Token, rest: Option<Seq<Token>>) -> Option<Seq<Token>> {
    match rest {
        Some(tokens) => Some(seq![token] + tokens),
        None => None,
    }
}

/// The tokens of a format string from position `i` on, or nothing where a
/// field without a name occurs.
pub open spec fn tokens_from(t: Seq<char>, i: int) -> Option<Seq<Token>>
    decreases t.len() - i,
{
    if i < 0 || i >= t.len() {
        Some(Seq::<Token>::empty())
    } else if t[i] == '{' {
        if i + 1 < t.len() && t[i + 1] == '{' {
            prepend(Token::Char('{'), tokens_from(t, i + 2))
        } else {
            let close = index_of_from(t, '}', i + 1);
            if close >= t.len() {
                prepend(Token::Char('{'), tokens_from(t, i + 1))
            } else if close <= i + 1 {
                None
            } else {
                prepend(Token::Field(t.subrange(i + 1, close)), tokens_from(t, close + 1))
            }
        }
    } else if t[i] == '}' && i + 1 < t.len() && t[i + 1] == '}' {
        prepend(Token::Char('}'), tokens_from(t, i + 2))
    } else {
        prepend(Token::Char(t[i]), tokens_from(t, i + 1))
    }
}

/// The tokens of a format string.
pub open spec fn tokens_of(t: Seq<char>) -> Option<Seq<Token>> {
    tokens_from(t, 0)
}

/// The parts so far with the literal that is still open added, where it
/// holds anything.
pub open spec fn flush(parts: Seq<PartView>, literal: Seq<char>) -> Seq<PartView> {
    if literal.len() > 0 {
        parts.push(PartView::Literal(literal))
    } else {
        parts
    }
}

/// The parts that tokens make, and the literal that is still open after
/// them: neighbouring characters run together into one literal.
pub open spec fn coalesce(tokens: Seq<Token>) -> (Seq<PartView>, Seq<char>)
    decreases tokens.len(),
{
    if tokens.len() == 0 {
        (Seq::<PartView>::empty(), Seq::<char>::empty())
    } else {
        let (parts, literal) = coalesce(tokens.drop_last());
        match tokens.last() {
            Token::Char(c) => (parts, literal.push(c)),
            Token::Field(name) => (
                flush(parts, literal).push(PartView::Field(name)),
                Seq::<char>::empty(),
            ),
        }
    }
}

/// The parts of a template with the given tokens.
pub open spec fn parts_of(tokens: Seq<Token>) -> Seq<PartView> {
    flush(coalesce(tokens).0, coalesce(tokens).1)
}

/// The parts that a format string compiles to, or nothing where it is no
/// template.
pub open spec fn compiled(t: Seq<char>) -> Option<Seq<PartView>> {
    match tokens_of(t) {
        Some(tokens) => Some(parts_of(tokens)),
        None => None,
    }
}

/// The size in bytes that the output of a template is reckoned to have:
/// the literals as they are, and each field at [`FIELD_ESTIMATE`].
pub open spec fn estimate(parts: Seq<PartView>) -> nat
    decreases parts.len(),
{
    if parts.len() == 0 {
        0
    } else {
        estimate(parts.drop_last()) + match parts.last() {
            PartView::Literal(l) => vstd::utf8::encode_utf8(l).len(),
            PartView::Field(_) => FIELD_ESTIMATE as nat,
        }
    }
}

/// A number as a `usize`, or the largest `usize` where it does not fit.
pub open spec fn saturated(n: nat) -> usize {
    if n <= usize::MAX {
        n as usize
    } else {
        usize::MAX
    }
}

/// The names of the fields of a template, in order.
pub open spec fn field_names(parts: Seq<PartView>) -> Seq<Seq<char>>
    decreases parts.len(),
{
    if parts.len() == 0 {
        Seq::<Seq<char>>::empty()
    } else {
        match parts.last() {
            PartView::Literal(_) => field_names(parts.drop_last()),
            PartView::Field(name) => field_names(parts.drop_last()).push(name),
        }
    }
}

/// The output of a template whose fields take the given values, one value
/// for each field in order: the literals and the values, one after the
/// other. Values are copied, never read as a template.
pub open spec fn substitute(parts: Seq<PartView>, values: Seq<Seq<char>>) -> Seq<char>
    decreases parts.len(),
{
    if parts.len() == 0 {
        Seq::<char>::empty()
    } else {
        match parts.last() {
            PartView::Literal(l) => substitute(parts.drop_last(), values) + l,
            PartView::Field(_) => substitute(parts.drop_last(), values.drop_last())
                + values.last(),
        }
    }
}

/// The bytes of the output of a template whose fields take the given
/// values: the encodings of the literals and of the values, one after the
/// other.
pub open spec fn substitute_bytes(parts: Seq<PartView>, values: Seq<Seq<char>>) -> Seq<u8>
    decreases parts.len(),
{
    if parts.len() == 0 {
        Seq::<u8>::empty()
    } else {
        match parts.last() {
            PartView::Literal(l) => substitute_bytes(parts.drop_last(), values)
                + vstd::utf8::encode_utf8(l),
            PartView::Field(_) => substitute_bytes(parts.drop_last(), values.drop_last())
                + vstd::utf8::encode_utf8(values.last()),
        }
    }
}

/// Whether `lookup` can answer `value` when it is asked for `name`.
pub open spec fn may_answer<'a, F: Fn(&str) -> &'a str>(
    lookup: F,
    name: Seq<char>,
    value: Seq<char>,
) -> bool {
    exists|n: &str, v: &'a str| #[trigger] call_ensures(lookup, (n,), v) && n@ == name && v@ == value
}

/// Whether `values` are answers of `lookup` for `names`, one for each name
/// in order.
pub open spec fn answers<'a, F: Fn(&str) -> &'a str>(
    lookup: F,
    names: Seq<Seq<char>>,
    values: Seq<Seq<char>>,
) -> bool {
    &&& values.len() == names.len()
    &&& forall|i: int| 0 <= i < values.len() ==> may_answer(lookup, names[i], #[trigger] values[i])
}

/// The format string that a template stands for: the literals as they are,
/// and each field in braces.
pub open spec fn displayed(parts: Seq<PartView>) -> Seq<char>
    decreases parts.len(),
{
    if parts.len() == 0 {
        Seq::<char>::empty()
    } else {
        displayed(parts.drop_last()) + match parts.last() {
            PartView::Literal(l) => l,
            PartView::Field(name) => seq!['{'] + name + seq!['}'],
        }
    }
}

/// The map that a list of entries stands for: later entries take
/// precedence.
pub open spec fn table_of(entries: Seq<(String, String)>) -> Map<Seq<char>, Seq<char>>
    decreases entries.len(),
{
    if entries.len() == 0 {
        Map::<Seq<char>, Seq<char>>::empty()
    } else {
        table_of(entries.drop_last()).insert(entries.last().0@, entries.last().1@)
    }
}

/// The value of a name in a table, or the empty text where it has none.
pub open spec fn value_or_empty(table: Map<Seq<char>, Seq<char>>, name: Seq<char>) -> Seq<char> {
    if table.contains_key(name) {
        table[name]
    } else {
        Seq::<char>::empty()
    }
}

/// The values that a table gives to a list of names.
pub open spec fn table_values(table: Map<Seq<char>, Seq<char>>, names: Seq<Seq<char>>) -> Seq<
    Seq<char>,
> {
    Seq::new(names.len(), |i: int| value_or_empty(table, names[i]))
}

impl View for FieldTable {
    type V = Map<Seq<char>, Seq<char>>;

    closed spec fn view(&self) -> Map<Seq<char>, Seq<char>> {
        table_of(self.entries@)
    }
}

impl FieldTable {
    /// A table without values.
    pub fn new() -> (r: FieldTable)
        ensures
            r@ == Map::<Seq<char>, Seq<char>>::empty(),
    {
        FieldTable { entries: Vec::new() }
    }

    /// Sets the value of a name.
    pub fn insert(&mut self, name: String, value: String)
        ensures
            final(self)@ == old(self)@.insert(name@, value@),
    {
        let ghost before = self.entries@;
        self.entries.push((name, value));
        assert(self.entries@.drop_last() == before);
    }

    /// The value of a name, if it has one.
    pub fn get(&self, name: &str) -> (r: Option<&str>)
        ensures
            match r {
                Some(v) => self@.contains_key(name@) && self@[name@] == v@,
                None => !self@.contains_key(name@),
            },
    {
        let key = String::from_str(name);
        let mut i = self.entries.len();
        assert(self.entries@.take(i as int) == self.entries@);
        while i > 0
            invariant
                0 <= i <= self.entries@.len(),
                key@ == name@,
                self@.contains_key(name@) <==> table_of(self.entries@.take(i as int)).contains_key(
                    name@,
                ),
                self@.contains_key(name@) ==> self@[name@] == table_of(
                    self.entries@.take(i as int),
                )[name@],
            decreases i,
        {
            proof {
                assert(self.entries@.take(i as int).drop_last() == self.entries@.take(i - 1));
            }
            i -= 1;
            if self.entries[i].0 == key {
                return Some(self.entries[i].1.as_str());
            }
        }
        assert(self.entries@.take(0) == Seq::<(String, String)>::empty());
        None
    }
}

impl TemplateError {
    /// The message of the error.
    pub open spec fn message(&self) -> Seq<char> {
        "invalid template: "@ + self.reason@
    }

    /// The message of the error.
    pub fn to_string(&self) -> (r: String)
        ensures
            r@ == self.message(),
    {
        String::from_str("invalid template: ").concat(self.reason.as_str())
    }
}

/// Finds the first `c` at or after `from`.
fn find_char(text: &str, c: char, from: usize, n: usize) -> (r: usize)
    requires
        n == text@.len(),
        from <= n,
    ensures
        r == index_of_from(text@, c, from as int),
        from <= r <= n,
        r < n ==> text@[r as int] == c,
{
    let mut k = from;
    while k < n
        invariant
            n == text@.len(),
            from <= k <= n,
            index_of_from(text@, c, from as int) == index_of_from(text@, c, k as int),
        decreases n - k,
    {
        if text.get_char(k) == c {
            return k;
        }
        k += 1;
    }
    n
}

/// What `compile` holds after reading some tokens.
pub open spec fn compile_state(
    done: Seq<Token>,
    parts: Seq<TemplatePart>,
    literal: Seq<char>,
    size: usize,
) -> bool {
    &&& coalesce(done).0 == part_views(parts)
    &&& coalesce(done).1 == literal
    &&& size == saturated(estimate(part_views(parts)))
}

/// The tokens read and the tokens still to come make the tokens of the
/// whole.
pub open spec fn splits_tokens(t: Seq<char>, done: Seq<Token>, i: int) -> bool {
    match tokens_from(t, i) {
        Some(rest) => tokens_of(t) == Some(done + rest),
        None => tokens_of(t) is None,
    }
}

proof fn lemma_read_token(t: Seq<char>, done: Seq<Token>, i: int, token: Token, next: int)
    requires
        splits_tokens(t, done, i),
        tokens_from(t, i) == prepend(token, tokens_from(t, next)),
    ensures
        splits_tokens(t, done.push(token), next),
{
    match tokens_from(t, next) {
        Some(rest) => {
            assert(done + (seq![token] + rest) == done.push(token) + rest);
        },
        None => {},
    }
}

impl Template {
    /// The size in bytes that rendered output is reckoned to have.
    pub closed spec fn spec_estimated_size(&self) -> usize {
        self.estimated_size
    }

    #[verifier::type_invariant]
    spec fn well_formed(&self) -> bool {
        self.estimated_size == saturated(estimate(part_views(self.parts@)))
    }

    /// A copy of the template.
    pub fn clone(&self) -> (r: Template)
        ensures
            r@ == self@,
            r.spec_estimated_size() == self.spec_estimated_size(),
    {
        proof {
            use_type_invariant(self);
        }
        let mut parts: Vec<TemplatePart> = Vec::new();
        let mut i: usize = 0;
        while i < self.parts.len()
            invariant
                0 <= i <= self.parts@.len(),
                parts@.len() == i,
                forall|k: int| 0 <= k < i ==> (#[trigger] parts@[k])@ == self.parts@[k]@,
            decreases self.parts@.len() - i,
        {
            let part = match &self.parts[i] {
                TemplatePart::Literal(s) => TemplatePart::Literal(s.clone()),
                TemplatePart::Field(s) => TemplatePart::Field(s.clone()),
            };
            parts.push(part);
            i += 1;
        }
        assert(part_views(parts@) =~= part_views(self.parts@));
        Template { parts, estimated_size: self.estimated_size }
    }

    /// Compiles a format string. It fails on a field without a name, and on
    /// nothing else.
    pub fn compile(template: &str) -> (r: Result<Template, TemplateError>)
        ensures
            match compiled(template@) {
                Some(parts) => r matches Ok(t) && t@ == parts && t.spec_estimated_size()
                    == saturated(estimate(parts)),
                None => r matches Err(e) && e.reason@ == "empty field name at position"@,
            },
    {
        let n = template.unicode_len();
        let mut parts: Vec<TemplatePart> = Vec::new();
        let mut literal = String::new();
        let mut size: usize = 0;
        let mut i: usize = 0;
        let ghost mut done: Seq<Token> = Seq::empty();
        proof {
            assert(part_views(parts@) =~= Seq::<PartView>::empty());
            match tokens_from(template@, 0) {
                Some(rest) => {
                    assert(done + rest == rest);
                },
                None => {},
            }
        }
        while i < n
            invariant
                n == template@.len(),
                0 <= i <= n,
                splits_tokens(template@, done, i as int),
                compile_state(done, parts@, literal@, size),
            decreases n - i,
        {
            let c = template.get_char(i);
            let ghost before = done;
            if c == '{' && !(i + 1 < n && template.get_char(i + 1) == '{') {
                let close = find_char(template, '}', i + 1, n);
                if close < n {
                    if close == i + 1 {
                        return Err(
                            TemplateError {
                                reason: String::from_str("empty field name at position"),
                            },
                        );
                    }
                    let name = String::from_str(template.substring_char(i + 1, close));
                    let ghost token = Token::Field(name@);
                    let ghost closed = part_views(parts@);
                    let ghost open = literal@;
                    if !literal.as_str().is_empty() {
                        size = size.saturating_add(literal.as_str().as_bytes().len());
                        parts.push(TemplatePart::Literal(literal));
                        literal = String::new();
                        proof {
                            assert(part_views(parts@) =~= closed.push(PartView::Literal(open)));
                            assert(part_views(parts@).drop_last() =~= closed);
                        }
                    }
                    let ghost flushed = part_views(parts@);
                    assert(flushed == flush(closed, open));
                    assert(size == saturated(estimate(flushed)));
                    size = size.saturating_add(FIELD_ESTIMATE);
                    parts.push(TemplatePart::Field(name));
                    proof {
                        lemma_read_token(template@, done, i as int, token, close + 1);
                        done = done.push(token);
                        assert(done.drop_last() == before);
                        assert(part_views(parts@) =~= flushed.push(PartView::Field(name@)));
                        assert(part_views(parts@).drop_last() =~= flushed);
                    }
                    i = close + 1;
                    continue ;
                }
            }
            let step: usize = if (c == '{' || c == '}') && i + 1 < n && template.get_char(i + 1)
                == c {
                2
            } else {
                1
            };
            let ghost open = literal@;
            literal.append(template.substring_char(i, i + 1));
            proof {
                let token = Token::Char(c);
                assert(template@.subrange(i as int, i + 1) == seq![c]);
                assert(literal@ == open.push(c));
                lemma_read_token(template@, done, i as int, token, i + step);
                done = done.push(token);
                assert(done.drop_last() == before);
            }
            i += step;
        }
        let ghost closed = part_views(parts@);
        if !literal.as_str().is_empty() {
            size = size.saturating_add(literal.as_str().as_bytes().len());
            parts.push(TemplatePart::Literal(literal));
            proof {
                assert(part_views(parts@) =~= closed.push(PartView::Literal(coalesce(done).1)));
                assert(part_views(parts@).drop_last() =~= closed);
            }
        }
        proof {
            assert(done + Seq::<Token>::empty() == done);
        }
        Ok(Template { parts, estimated_size: size })
    }

    /// The size in bytes that rendered output is reckoned to have.
    pub fn estimated_size(&self) -> (r: usize)
        ensures
            r == self.spec_estimated_size(),
            r == saturated(estimate(self@)),
    {
        proof {
            use_type_invariant(self);
        }
        self.estimated_size
    }

    /// The names of the fields of the template, in order.
    pub fn fields(&self) -> (r: Vec<&str>)
        ensures
            r@.len() == field_names(self@).len(),
            forall|i: int| 0 <= i < r@.len() ==> (#[trigger] r@[i])@ == field_names(self@)[i],
    {
        let mut names: Vec<&str> = Vec::new();
        let mut i: usize = 0;
        assert(part_views(self.parts@).take(0) == Seq::<PartView>::empty());
        while i < self.parts.len()
            invariant
                0 <= i <= self.parts@.len(),
                names@.len() == field_names(part_views(self.parts@).take(i as int)).len(),
                forall|k: int|
                    0 <= k < names@.len() ==> (#[trigger] names@[k])@ == field_names(
                        part_views(self.parts@).take(i as int),
                    )[k],
            decreases self.parts@.len() - i,
        {
            proof {
                assert(part_views(self.parts@).take(i + 1).drop_last() == part_views(
                    self.parts@,
                ).take(i as int));
            }
            match &self.parts[i] {
                TemplatePart::Field(name) => {
                    names.push(name.as_str());
                },
                TemplatePart::Literal(_) => {},
            }
            i += 1;
        }
        assert(part_views(self.parts@).take(self.parts@.len() as int) == part_views(self.parts@));
        names
    }

    /// The format string that the template stands for.
    pub fn to_string(&self) -> (r: String)
        ensures
            r@ == displayed(self@),
    {
        let mut out = String::new();
        let mut i: usize = 0;
        assert(part_views(self.parts@).take(0) == Seq::<PartView>::empty());
        while i < self.parts.len()
            invariant
                0 <= i <= self.parts@.len(),
                out@ == displayed(part_views(self.parts@).take(i as int)),
            decreases self.parts@.len() - i,
        {
            proof {
                assert(part_views(self.parts@).take(i + 1).drop_last() == part_views(
                    self.parts@,
                ).take(i as int));
                reveal_strlit("{");
                reveal_strlit("}");
            }
            let ghost before = out@;
            match &self.parts[i] {
                TemplatePart::Literal(s) => {
                    out.append(s.as_str());
                },
                TemplatePart::Field(name) => {
                    out.append("{");
                    out.append(name.as_str());
                    out.append("}");
                    assert(out@ =~= before + (seq!['{'] + name@ + seq!['}']));
                },
            }
            i += 1;
        }
        assert(part_views(self.parts@).take(self.parts@.len() as int) == part_views(self.parts@));
        out
    }

    /// Renders the template. `lookup` is asked once for each field, in
    /// order, and its answers stand in the output as they are.
    pub fn render<'a, F: Fn(&str) -> &'a str>(&self, lookup: F) -> (r: String)
        requires
            forall|name: &str| call_requires(lookup, (name,)),
        ensures
            exists|values: Seq<Seq<char>>| #[trigger]
                answers(lookup, field_names(self@), values) && r@ == substitute(self@, values),
    {
        let mut out = String::new();
        let mut i: usize = 0;
        let ghost all = part_views(self.parts@);
        let ghost mut values: Seq<Seq<char>> = Seq::empty();
        assert(all.take(0) == Seq::<PartView>::empty());
        while i < self.parts.len()
            invariant
                0 <= i <= self.parts@.len(),
                all == part_views(self.parts@),
                forall|name: &str| call_requires(lookup, (name,)),
                answers(lookup, field_names(all.take(i as int)), values),
                out@ == substitute(all.take(i as int), values),
            decreases self.parts@.len() - i,
        {
            proof {
                assert(all.take(i + 1).drop_last() == all.take(i as int));
            }
            match &self.parts[i] {
                TemplatePart::Literal(s) => {
                    out.append(s.as_str());
                },
                TemplatePart::Field(name) => {
                    let value = lookup(name.as_str());
                    proof {
                        let before = values;
                        values = values.push(value@);
                        assert(values.drop_last() == before);
                        assert(may_answer(lookup, name@, value@));
                    }
                    out.append(value);
                },
            }
            i += 1;
        }
        assert(all.take(self.parts@.len() as int) == all);
        assert(answers(lookup, field_names(self@), values) && out@ == substitute(self@, values));
        out
    }

    /// Renders the template onto the end of `out`, as bytes. `lookup` is
    /// asked once for each field, in order.
    pub fn write<'a, F: Fn(&str) -> &'a str>(&self, out: &mut Vec<u8>, lookup: F)
        requires
            forall|name: &str| call_requires(lookup, (name,)),
        ensures
            exists|values: Seq<Seq<char>>| #[trigger]
                answers(lookup, field_names(self@), values) && final(out)@ == old(out)@
                    + substitute_bytes(self@, values),
    {
        let mut i: usize = 0;
        let ghost all = part_views(self.parts@);
        let ghost mut values: Seq<Seq<char>> = Seq::empty();
        assert(all.take(0) == Seq::<PartView>::empty());
        assert(out@ == old(out)@ + Seq::<u8>::empty());
        while i < self.parts.len()
            invariant
                0 <= i <= self.parts@.len(),
                all == part_views(self.parts@),
                forall|name: &str| call_requires(lookup, (name,)),
                answers(lookup, field_names(all.take(i as int)), values),
                out@ == old(out)@ + substitute_bytes(all.take(i as int), values),
            decreases self.parts@.len() - i,
        {
            proof {
                assert(all.take(i + 1).drop_last() == all.take(i as int));
            }
            let ghost before = out@;
            let ghost done = substitute_bytes(all.take(i as int), values);
            match &self.parts[i] {
                TemplatePart::Literal(s) => {
                    out.extend_from_slice(s.as_str().as_bytes());
                    assert(out@ == old(out)@ + (done + vstd::utf8::encode_utf8(s@)));
                },
                TemplatePart::Field(name) => {
                    let value = lookup(name.as_str());
                    proof {
                        let earlier = values;
                        values = values.push(value@);
                        assert(values.drop_last() == earlier);
                        assert(may_answer(lookup, name@, value@));
                    }
                    out.extend_from_slice(value.as_bytes());
                    assert(out@ == old(out)@ + (done + vstd::utf8::encode_utf8(value@)));
                },
            }
            i += 1;
        }
        assert(all.take(self.parts@.len() as int) == all);
        assert(answers(lookup, field_names(self@), values) && out@ == old(out)@ + substitute_bytes(
            self@,
            values,
        ));
    }

    /// Renders the template with the values of a table. A field that the
    /// table does not name renders as the empty text.
    pub fn render_with_map(&self, values: &FieldTable) -> (r: String)
        ensures
            r@ == substitute(self@, table_values(values@, field_names(self@))),
    {
        let mut out = String::new();
        let mut i: usize = 0;
        let ghost all = part_views(self.parts@);
        assert(all.take(0) == Seq::<PartView>::empty());
        while i < self.parts.len()
            invariant
                0 <= i <= self.parts@.len(),
                all == part_views(self.parts@),
                out@ == substitute(
                    all.take(i as int),
                    table_values(values@, field_names(all.take(i as int))),
                ),
            decreases self.parts@.len() - i,
        {
            let ghost prefix = all.take(i as int);
            let ghost next = all.take(i + 1);
            proof {
                assert(next.drop_last() == prefix);
            }
            match &self.parts[i] {
                TemplatePart::Literal(s) => {
                    out.append(s.as_str());
                },
                TemplatePart::Field(name) => {
                    let value = match values.get(name.as_str()) {
                        Some(v) => v,
                        None => "",
                    };
                    proof {
                        reveal_strlit("");
                        assert(value@ == value_or_empty(values@, name@));
                        let used = table_values(values@, field_names(next));
                        assert(used.drop_last() =~= table_values(values@, field_names(prefix)));
                    }
                    out.append(value);
                },
            }
            i += 1;
        }
        assert(all.take(self.parts@.len() as int) == all);
        out
    }
}

/// Every value stands in the output as it is: the output holds the value
/// of each field as one run of characters, whatever the value looks like.
/// A value that reads like a field reference is therefore not replaced
/// again.
pub proof fn lemma_values_verbatim(parts: Seq<PartView>, values: Seq<Seq<char>>, k: int)
    requires
        values.len() == field_names(parts).len(),
        0 <= k < values.len(),
    ensures
        exists|at: int|
            0 <= at && at + values[k].len() <= substitute(parts, values).len() && #[trigger] substitute(
                parts,
                values,
            ).subrange(at, at + values[k].len()) == values[k],
    decreases parts.len(),
{
    if parts.len() == 0 {
    } else {
        let before = parts.drop_last();
        match parts.last() {
            PartView::Literal(l) => {
                lemma_values_verbatim(before, values, k);
                let out = substitute(before, values);
                let at = choose|at: int|
                    0 <= at && at + values[k].len() <= out.len() && #[trigger] out.subrange(
                        at,
                        at + values[k].len(),
                    ) == values[k];
                let total = substitute(parts, values);
                assert(total == out + l);
                assert(total.subrange(at, at + values[k].len()) =~= out.subrange(
                    at,
                    at + values[k].len(),
                ));
                assert(0 <= at && at + values[k].len() <= total.len() && total.subrange(
                    at,
                    at + values[k].len(),
                ) == values[k]);
            },
            PartView::Field(_) => {
                let out = substitute(before, values.drop_last());
                let total = substitute(parts, values);
                assert(total == out + values.last());
                if k == values.len() - 1 {
                    let at = out.len() as int;
                    assert(total.subrange(at, at + values[k].len()) =~= values[k]);
                    assert(0 <= at && at + values[k].len() <= total.len() && total.subrange(
                        at,
                        at + values[k].len(),
                    ) == values[k]);
                } else {
                    lemma_values_verbatim(before, values.drop_last(), k);
                    assert(values.drop_last()[k] == values[k]);
                    let at = choose|at: int|
                        0 <= at && at + values[k].len() <= out.len() && #[trigger] out.subrange(
                            at,
                            at + values[k].len(),
                        ) == values[k];
                    assert(total.subrange(at, at + values[k].len()) =~= out.subrange(
                        at,
                        at + values[k].len(),
                    ));
                    assert(0 <= at && at + values[k].len() <= total.len() && total.subrange(
                        at,
                        at + values[k].len(),
                    ) == values[k]);
                }
            },
        }
    }
}

} // verus!
