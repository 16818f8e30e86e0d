use vstd::prelude::*;
use crate::words::{shell_quote, shell_quoted, views_of};

verus! {

/// The decimal digit `d`.
pub open spec fn digit_char(d: nat) -> char {
    seq!['0', '1', '2', '3', '4', '5', '6', '7', '8', '9'][d as int]
}

pub open spec fn decimal_digits(n: nat) -> Seq<char>
    decreases n,
{
    if n < 10 {
        seq![digit_char(n)]
    } else {
        decimal_digits(n / 10).push(digit_char(n % 10))
    }
}

/// `n` written in decimal, with a leading `-` where it is negative.
pub open spec fn decimal(n: int) -> Seq<char> {
    if n < 0 {
        seq!['-'] + decimal_digits((-n) as nat)
    } else {
        decimal_digits(n as nat)
    }
}

/// Relies on u64's `Display`: the value in decimal, without padding.
#[verifier::external_body]
pub(crate) fn u64_text(v: u64) -> (r: String)
    ensures
        r@ == decimal(v as int),
{
    v.to_string()
}

/// Relies on i64's `Display`: the value in decimal, `-` before a negative one.
#[verifier::external_body]
pub(crate) fn i64_text(v: i64) -> (r: String)
    ensures
        r@ == decimal(v as int),
{
    v.to_string()
}

/// A value to be placed in a command line: nothing, one word, or a list of
/// words.
///
/// It converts from strings, the integer types, and lists and options of
/// those. Conversions from any `Display` type are left out: they would rest
/// on `Display` impls that nothing here can state, and the orphan rule keeps
/// a dependent crate from adding them.
pub enum CommandArg {
    Empty,
    Literal(String),
    List(Vec<String>),
}

/// Each word quoted for the shell, separated by single spaces.
pub open spec fn join_quoted(items: Seq<Seq<char>>) -> Seq<char>
    decreases items.len(),
{
    if items.len() == 0 {
        Seq::empty()
    } else if items.len() == 1 {
        shell_quoted(items[0])
    } else {
        join_quoted(items.drop_last()) + seq![' '] + shell_quoted(items.last())
    }
}

impl CommandArg {
    /// The text that stands for the value in a command line.
    pub open spec fn rendering(&self) -> Seq<char> {
        match self {
            CommandArg::Empty => Seq::empty(),
            CommandArg::Literal(v) => shell_quoted(v@),
            CommandArg::List(l) => join_quoted(views_of(l@)),
        }
    }

    /// The value quoted for the shell: an empty text for `Empty`, the quoted
    /// word for `Literal`, the quoted words joined by spaces for `List`.
    pub fn render(&self) -> (r: String)
        ensures
            r@ == self.rendering(),
    {
        match self {
            CommandArg::Empty => String::new(),
            CommandArg::Literal(v) => shell_quote(v.as_str()),
            CommandArg::List(l) => {
                let ghost ls = views_of(l@);
                let mut acc = String::new();
                let n = l.len();
                let mut i: usize = 0;
                assert(ls.take(0) =~= Seq::<Seq<char>>::empty());
                while i < n
                    invariant
                        n == l@.len(),
                        ls == views_of(l@),
                        i <= n,
                        acc@ == join_quoted(ls.take(i as int)),
                    decreases n - i,
                {
                    if i > 0 {
                        proof {
                            reveal_strlit(" ");
                        }
                        acc.append(" ");
                    }
                    let q = shell_quote(l[i].as_str());
                    acc.append(q.as_str());
                    assert(ls.take(i + 1).drop_last() =~= ls.take(i as int));
                    assert(ls.take(i + 1).last() == l@[i as int]@);
                    assert(acc@ =~= join_quoted(ls.take(i + 1)));
                    i += 1;
                }
                assert(ls.take(n as int) =~= ls);
                acc
            },
        }
    }
}

fn copy_words(l: &Vec<String>) -> (r: Vec<String>)
    ensures
        views_of(r@) == views_of(l@),
{
    let n = l.len();
    let mut r: Vec<String> = Vec::new();
    let mut i: usize = 0;
    while i < n
        invariant
            n == l@.len(),
            i <= n,
            r@.len() == i,
            forall|j: int| 0 <= j < i ==> #[trigger] r@[j]@ == l@[j]@,
        decreases n - i,
    {
        r.push(l[i].clone());
        i += 1;
    }
    assert(views_of(r@) =~= views_of(l@));
    r
}

impl From<String> for CommandArg {
    fn from(value: String) -> (r: CommandArg) {
        CommandArg::Literal(value)
    }
}

impl vstd::std_specs::convert::FromSpecImpl<String> for CommandArg {
    open spec fn obeys_from_spec() -> bool {
        true
    }

    open spec fn from_spec(v: String) -> CommandArg {
        CommandArg::Literal(v)
    }
}

impl<'a> From<&'a String> for CommandArg {
    fn from(value: &'a String) -> (r: CommandArg) {
        CommandArg::Literal(value.clone())
    }
}

impl<'a> vstd::std_specs::convert::FromSpecImpl<&'a String> for CommandArg {
    open spec fn obeys_from_spec() -> bool {
        true
    }

    open spec fn from_spec(v: &'a String) -> CommandArg {
        CommandArg::Literal(*v)
    }
}

impl<'a> From<&'a str> for CommandArg {
    fn from(value: &'a str) -> (r: CommandArg)
        ensures
            r matches CommandArg::Literal(s) && s@ == value@,
    {
        CommandArg::Literal(value.to_owned())
    }
}

impl<'a> vstd::std_specs::convert::FromSpecImpl<&'a str> for CommandArg {
    /// The result holds a fresh string, which no spec value names: the
    /// `ensures` of `from` says what it holds.
    open spec fn obeys_from_spec() -> bool {
        false
    }

    open spec fn from_spec(v: &'a str) -> CommandArg {
        arbitrary()
    }
}

impl<'a> From<&'a u64> for CommandArg {
    fn from(value: &'a u64) -> (r: CommandArg)
        ensures
            r matches CommandArg::Literal(s) && s@ == decimal(*value as int),
    {
        CommandArg::Literal(u64_text(*value))
    }
}

impl<'a> vstd::std_specs::convert::FromSpecImpl<&'a u64> for CommandArg {
    /// The result holds a fresh string, which no spec value names: the
    /// `ensures` of `from` says what it holds.
    open spec fn obeys_from_spec() -> bool {
        false
    }

    open spec fn from_spec(v: &'a u64) -> CommandArg {
        arbitrary()
    }
}

impl<'a> From<&'a i64> for CommandArg {
    fn from(value: &'a i64) -> (r: CommandArg)
        ensures
            r matches CommandArg::Literal(s) && s@ == decimal(*value as int),
    {
        CommandArg::Literal(i64_text(*value))
    }
}

impl<'a> vstd::std_specs::convert::FromSpecImpl<&'a i64> for CommandArg {
    /// The result holds a fresh string, which no spec value names: the
    /// `ensures` of `from` says what it holds.
    open spec fn obeys_from_spec() -> bool {
        false
    }

    open spec fn from_spec(v: &'a i64) -> CommandArg {
        arbitrary()
    }
}

impl<'a> From<&'a i32> for CommandArg {
    fn from(value: &'a i32) -> (r: CommandArg)
        ensures
            r matches CommandArg::Literal(s) && s@ == decimal(*value as int),
    {
        CommandArg::Literal(i64_text(*value as i64))
    }
}

impl<'a> vstd::std_specs::convert::FromSpecImpl<&'a i32> for CommandArg {
    /// The result holds a fresh string, which no spec value names: the
    /// `ensures` of `from` says what it holds.
    open spec fn obeys_from_spec() -> bool {
        false
    }

    open spec fn from_spec(v: &'a i32) -> CommandArg {
        arbitrary()
    }
}

impl<'a> From<&'a Vec<String>> for CommandArg {
    fn from(list: &'a Vec<String>) -> (r: CommandArg)
        ensures
            r matches CommandArg::List(l) && views_of(l@) == views_of(list@),
    {
        CommandArg::List(copy_words(list))
    }
}

impl<'a> vstd::std_specs::convert::FromSpecImpl<&'a Vec<String>> for CommandArg {
    /// The result holds a fresh string, which no spec value names: the
    /// `ensures` of `from` says what it holds.
    open spec fn obeys_from_spec() -> bool {
        false
    }

    open spec fn from_spec(v: &'a Vec<String>) -> CommandArg {
        arbitrary()
    }
}

impl<'a> From<&'a Option<String>> for CommandArg {
    fn from(opt: &'a Option<String>) -> (r: CommandArg)
        ensures
            match opt {
                Some(v) => r matches CommandArg::Literal(s) && s@ == v@,
                None => r is Empty,
            },
    {
        match opt {
            Some(v) => CommandArg::Literal(v.clone()),
            None => CommandArg::Empty,
        }
    }
}

impl<'a> vstd::std_specs::convert::FromSpecImpl<&'a Option<String>> for CommandArg {
    /// The result holds a fresh string, which no spec value names: the
    /// `ensures` of `from` says what it holds.
    open spec fn obeys_from_spec() -> bool {
        false
    }

    open spec fn from_spec(v: &'a Option<String>) -> CommandArg {
        arbitrary()
    }
}

impl<'a, 'b> From<&'a &'b str> for CommandArg {
    fn from(value: &'a &'b str) -> (r: CommandArg)
        ensures
            r matches CommandArg::Literal(s) && s@ == (*value)@,
    {
        CommandArg::Literal((*value).to_owned())
    }
}

impl<'a, 'b> vstd::std_specs::convert::FromSpecImpl<&'a &'b str> for CommandArg {
    /// The result holds a fresh string, which no spec value names: the
    /// `ensures` of `from` says what it holds.
    open spec fn obeys_from_spec() -> bool {
        false
    }

    open spec fn from_spec(v: &'a &'b str) -> CommandArg {
        arbitrary()
    }
}

impl<'a> From<&'a Vec<i32>> for CommandArg {
    fn from(list: &'a Vec<i32>) -> (r: CommandArg)
        ensures
            r matches CommandArg::List(l) && views_of(l@) == list@.map_values(
                |v: i32| decimal(v as int),
            ),
    {
        let n = list.len();
        let mut l: Vec<String> = Vec::new();
        let mut i: usize = 0;
        while i < n
            invariant
                n == list@.len(),
                i <= n,
                l@.len() == i,
                forall|j: int| 0 <= j < i ==> #[trigger] l@[j]@ == decimal(list@[j] as int),
            decreases n - i,
        {
            l.push(i64_text(list[i] as i64));
            i += 1;
        }
        assert(views_of(l@) =~= list@.map_values(|v: i32| decimal(v as int)));
        CommandArg::List(l)
    }
}

impl<'a> vstd::std_specs::convert::FromSpecImpl<&'a Vec<i32>> for CommandArg {
    /// The result holds fresh strings, which no spec value names: the
    /// `ensures` of `from` says what they hold.
    open spec fn obeys_from_spec() -> bool {
        false
    }

    open spec fn from_spec(v: &'a Vec<i32>) -> CommandArg {
        arbitrary()
    }
}

impl<'a> From<&'a Option<i32>> for CommandArg {
    fn from(opt: &'a Option<i32>) -> (r: CommandArg)
        ensures
            match opt {
                Some(v) => r matches CommandArg::Literal(s) && s@ == decimal(*v as int),
                None => r is Empty,
            },
    {
        match opt {
            Some(v) => CommandArg::Literal(i64_text(*v as i64)),
            None => CommandArg::Empty,
        }
    }
}

impl<'a> vstd::std_specs::convert::FromSpecImpl<&'a Option<i32>> for CommandArg {
    /// The result holds fresh strings, which no spec value names: the
    /// `ensures` of `from` says what they hold.
    open spec fn obeys_from_spec() -> bool {
        false
    }

    open spec fn from_spec(v: &'a Option<i32>) -> CommandArg {
        arbitrary()
    }
}

impl<'a> From<&'a Vec<i64>> for CommandArg {
    fn from(list: &'a Vec<i64>) -> (r: CommandArg)
        ensures
            r matches CommandArg::List(l) && views_of(l@) == list@.map_values(
                |v: i64| decimal(v as int),
            ),
    {
        let n = list.len();
        let mut l: Vec<String> = Vec::new();
        let mut i: usize = 0;
        while i < n
            invariant
                n == list@.len(),
                i <= n,
                l@.len() == i,
                forall|j: int| 0 <= j < i ==> #[trigger] l@[j]@ == decimal(list@[j] as int),
            decreases n - i,
        {
            l.push(i64_text(list[i]));
            i += 1;
        }
        assert(views_of(l@) =~= list@.map_values(|v: i64| decimal(v as int)));
        CommandArg::List(l)
    }
}

impl<'a> vstd::std_specs::convert::FromSpecImpl<&'a Vec<i64>> for CommandArg {
    /// The result holds fresh strings, which no spec value names: the
    /// `ensures` of `from` says what they hold.
    open spec fn obeys_from_spec() -> bool {
        false
    }

    open spec fn from_spec(v: &'a Vec<i64>) -> CommandArg {
        arbitrary()
    }
}

impl<'a> From<&'a Option<i64>> for CommandArg {
    fn from(opt: &'a Option<i64>) -> (r: CommandArg)
        ensures
            match opt {
                Some(v) => r matches CommandArg::Literal(s) && s@ == decimal(*v as int),
                None => r is Empty,
            },
    {
        match opt {
            Some(v) => CommandArg::Literal(i64_text(*v)),
            None => CommandArg::Empty,
        }
    }
}

impl<'a> vstd::std_specs::convert::FromSpecImpl<&'a Option<i64>> for CommandArg {
    /// The result holds fresh strings, which no spec value names: the
    /// `ensures` of `from` says what they hold.
    open spec fn obeys_from_spec() -> bool {
        false
    }

    open spec fn from_spec(v: &'a Option<i64>) -> CommandArg {
        arbitrary()
    }
}

impl<'a> From<&'a Vec<u64>> for CommandArg {
    fn from(list: &'a Vec<u64>) -> (r: CommandArg)
        ensures
            r matches CommandArg::List(l) && views_of(l@) == list@.map_values(
                |v: u64| decimal(v as int),
            ),
    {
        let n = list.len();
        let mut l: Vec<String> = Vec::new();
        let mut i: usize = 0;
        while i < n
            invariant
                n == list@.len(),
                i <= n,
                l@.len() == i,
                forall|j: int| 0 <= j < i ==> #[trigger] l@[j]@ == decimal(list@[j] as int),
            decreases n - i,
        {
            l.push(u64_text(list[i]));
            i += 1;
        }
        assert(views_of(l@) =~= list@.map_values(|v: u64| decimal(v as int)));
        CommandArg::List(l)
    }
}

impl<'a> vstd::std_specs::convert::FromSpecImpl<&'a Vec<u64>> for CommandArg {
    /// The result holds fresh strings, which no spec value names: the
    /// `ensures` of `from` says what they hold.
    open spec fn obeys_from_spec() -> bool {
        false
    }

    open spec fn from_spec(v: &'a Vec<u64>) -> CommandArg {
        arbitrary()
    }
}

impl<'a> From<&'a Option<u64>> for CommandArg {
    fn from(opt: &'a Option<u64>) -> (r: CommandArg)
        ensures
            match opt {
                Some(v) => r matches CommandArg::Literal(s) && s@ == decimal(*v as int),
                None => r is Empty,
            },
    {
        match opt {
            Some(v) => CommandArg::Literal(u64_text(*v)),
            None => CommandArg::Empty,
        }
    }
}

impl<'a> vstd::std_specs::convert::FromSpecImpl<&'a Option<u64>> for CommandArg {
    /// The result holds fresh strings, which no spec value names: the
    /// `ensures` of `from` says what they hold.
    open spec fn obeys_from_spec() -> bool {
        false
    }

    open spec fn from_spec(v: &'a Option<u64>) -> CommandArg {
        arbitrary()
    }
}

/// The command-line value that `value` converts to.
pub fn command_arg<'a, T>(value: &'a T) -> (r: CommandArg) where CommandArg: From<&'a T>
    ensures
        call_ensures(CommandArg::from, (value,), r),
{
    CommandArg::from(value)
}

} // verus!
