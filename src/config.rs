use vstd::prelude::*;

use crate::text::text_chars;

verus! {

broadcast use vstd::seq_lib::group_filter_ensures;

/// What `Config::new` reports when the arguments name no file.
pub const NOT_ENOUGH_ARGUMENTS: &'static str = "not enough arguments";

/// Whether an argument is a flag or a plain value.
#[derive(Clone, Copy, Debug, PartialEq, Eq, Structural)]
pub enum ArgKind {
    Flag,
    Arg,
}

/// One command-line argument, classified: a flag holds its name without the
/// `__` marker, a plain argument holds the token unchanged.
#[derive(Debug, PartialEq, Eq)]
pub struct LineArg {
    pub kind: ArgKind,
    pub arg: String,
}

/// The settings of one invocation, built from its arguments.
pub struct Config {
    pub flags: Vec<String>,
    pub non_flags: Vec<String>,
    pub filename: String,
    pub case_sensitive: bool,
    pub query: String,
}

/// A token is a flag when it starts with the two characters `__`.
pub open spec fn has_flag_marker(a: Seq<char>) -> bool {
    a.len() >= 2 && a[0] == '_' && a[1] == '_'
}

/// The name of a flag: the token without its marker.
pub open spec fn flag_name(a: Seq<char>) -> Seq<char> {
    a.subrange(2, a.len() as int)
}

/// The names of the flags among `args`, in order.
pub open spec fn flags_of(args: Seq<Seq<char>>) -> Seq<Seq<char>> {
    args.filter(|a: Seq<char>| has_flag_marker(a)).map_values(|a: Seq<char>| flag_name(a))
}

/// The tokens among `args` that are not flags, in order.
pub open spec fn non_flags_of(args: Seq<Seq<char>>) -> Seq<Seq<char>> {
    args.filter(|a: Seq<char>| !has_flag_marker(a))
}

/// The views of a sequence of strings.
pub open spec fn string_views(v: Seq<String>) -> Seq<Seq<char>> {
    v.map_values(|s: String| s@)
}

/// The query taken from the plain arguments: the second one, or empty.
pub open spec fn query_of(non_flags: Seq<Seq<char>>) -> Seq<char> {
    if non_flags.len() >= 2 {
        non_flags[1]
    } else {
        Seq::empty()
    }
}

/// `Config::new` fails on these arguments (the first being the program name):
/// fewer than two follow the program name, or none of them is a plain argument.
pub open spec fn too_few_arguments(args: Seq<Seq<char>>) -> bool {
    args.len() < 3 || non_flags_of(args.skip(1)).len() == 0
}

/// Whether `string` starts with the flag marker `__`.
pub fn is_flag(string: &String) -> (r: bool)
    ensures
        r == has_flag_marker(string@),
{
    let c = text_chars(string.as_str());
    c.len() >= 2 && c[0] == '_' && c[1] == '_'
}

/// The name of a flag: `flag` without its first two characters.
pub fn parse_flag(flag: &String) -> (r: String)
    requires
        flag@.len() >= 2,
    ensures
        r@ == flag@.subrange(2, flag@.len() as int),
{
    let s = flag.as_str();
    let n = s.unicode_len();
    String::from_str(s.substring_char(2, n))
}

impl LineArg {
    /// Classifies one argument.
    pub fn new(arg: &String) -> (r: LineArg)
        ensures
            has_flag_marker(arg@) ==> r.kind == ArgKind::Flag && r.arg@ == flag_name(arg@),
            !has_flag_marker(arg@) ==> r.kind == ArgKind::Arg && r.arg@ == arg@,
    {
        if is_flag(arg) {
            LineArg { kind: ArgKind::Flag, arg: parse_flag(arg) }
        } else {
            LineArg { kind: ArgKind::Arg, arg: arg.clone() }
        }
    }
}

proof fn lemma_classify_push(s: Seq<Seq<char>>, a: Seq<char>)
    ensures
        flags_of(s.push(a)) == if has_flag_marker(a) {
            flags_of(s).push(flag_name(a))
        } else {
            flags_of(s)
        },
        non_flags_of(s.push(a)) == if has_flag_marker(a) {
            non_flags_of(s)
        } else {
            non_flags_of(s).push(a)
        },
{
    let p = |a: Seq<char>| has_flag_marker(a);
    let q = |a: Seq<char>| !has_flag_marker(a);
    s.lemma_filter_push(a, p);
    s.lemma_filter_push(a, q);
    if has_flag_marker(a) {
        assert(s.filter(p).push(a).map_values(|a: Seq<char>| flag_name(a)) =~= flags_of(s).push(
            flag_name(a),
        ));
    }
}

impl Config {
    /// The configuration is consistent: there is a file name, the first plain
    /// argument, and the query is the second plain argument or empty.
    pub open spec fn wf(&self) -> bool {
        &&& self.non_flags@.len() >= 1
        &&& self.filename@ == self.non_flags@[0]@
        &&& self.query@ == query_of(string_views(self.non_flags@))
    }

    /// Builds the configuration from the process arguments, the first of which
    /// is the program name; `case_insensitive` tells whether case-insensitive
    /// matching was asked for.
    pub fn new(args: Vec<String>, case_insensitive: bool) -> (r: Result<Config, &'static str>)
        ensures
            r is Err <==> too_few_arguments(string_views(args@)),
            r matches Err(e) ==> e == NOT_ENOUGH_ARGUMENTS,
            r matches Ok(c) ==> {
                let rest = string_views(args@).skip(1);
                &&& c.wf()
                &&& string_views(c.flags@) == flags_of(rest)
                &&& string_views(c.non_flags@) == non_flags_of(rest)
                &&& c.filename@ == non_flags_of(rest)[0]
                &&& c.query@ == query_of(non_flags_of(rest))
                &&& c.case_sensitive == !case_insensitive
            },
    {
        if args.len() < 3 {
            return Err(NOT_ENOUGH_ARGUMENTS);
        }
        let ghost rest = string_views(args@).skip(1);
        let mut flags: Vec<String> = Vec::new();
        let mut non_flags: Vec<String> = Vec::new();
        let mut i: usize = 1;
        assert(rest.take(0) =~= Seq::<Seq<char>>::empty());
        assert(string_views(flags@) =~= flags_of(rest.take(0))) by {
            reveal(Seq::filter);
        }
        assert(string_views(non_flags@) =~= non_flags_of(rest.take(0))) by {
            reveal(Seq::filter);
        }
        while i < args.len()
            invariant
                1 <= i <= args@.len(),
                args@.len() >= 3,
                rest == string_views(args@).skip(1),
                string_views(flags@) == flags_of(rest.take(i - 1)),
                string_views(non_flags@) == non_flags_of(rest.take(i - 1)),
            decreases args.len() - i,
        {
            let a = LineArg::new(&args[i]);
            proof {
                assert(rest.take(i as int) =~= rest.take(i - 1).push(args@[i as int]@));
                lemma_classify_push(rest.take(i - 1), args@[i as int]@);
            }
            match a.kind {
                ArgKind::Arg => {
                    assert(string_views(non_flags@.push(a.arg)) =~= string_views(non_flags@).push(a.arg@));
                    non_flags.push(a.arg);
                },
                ArgKind::Flag => {
                    assert(string_views(flags@.push(a.arg)) =~= string_views(flags@).push(a.arg@));
                    flags.push(a.arg);
                },
            }
            i = i + 1;
        }
        assert(rest.take(i - 1) =~= rest);
        if non_flags.len() == 0 {
            return Err(NOT_ENOUGH_ARGUMENTS);
        }
        let filename = non_flags[0].clone();
        let query = if non_flags.len() >= 2 {
            non_flags[1].clone()
        } else {
            String::new()
        };
        assert(query@ == query_of(string_views(non_flags@)));
        Ok(Config { flags, non_flags, filename, case_sensitive: !case_insensitive, query })
    }
}

} // verus!
