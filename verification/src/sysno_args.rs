use vstd::prelude::*;

verus! {

/// True for the ASCII decimal digits.
pub open spec fn is_decimal_digit(c: char) -> bool {
    '0' as int <= c as int <= '9' as int
}

/// The value of a string of decimal digits, most significant first.
pub open spec fn decimal_value(s: Seq<char>) -> int
    decreases s.len(),
{
    if s.len() == 0 {
        0
    } else {
        decimal_value(s.drop_last()) * 10 + (s.last() as int - '0' as int)
    }
}

/// The digits of an unsigned decimal literal: one leading `+` is dropped.
pub open spec fn unsigned_digits(s: Seq<char>) -> Seq<char> {
    if s.len() > 0 && s[0] == '+' {
        s.drop_first()
    } else {
        s
    }
}

/// What `str::parse::<u32>` gives: an optional `+` followed by at least one
/// ASCII decimal digit and nothing else, whose value fits in a `u32`.
pub open spec fn parse_u32_spec(s: Seq<char>) -> Option<u32> {
    let d = unsigned_digits(s);
    if d.len() > 0 && (forall|i: int| 0 <= i < d.len() ==> is_decimal_digit(#[trigger] d[i]))
        && decimal_value(d) <= u32::MAX {
        Some(decimal_value(d) as u32)
    } else {
        None
    }
}

/// `str::parse::<u32>`: per the standard library's documentation of
/// `u32::from_str_radix` (radix 10), the text must be an optional `+` sign
/// followed by one or more digits, with no other character, and its value
/// must fit in a `u32`; otherwise it is an error.
#[verifier::external_body]
fn parse_u32(s: &str) -> (r: Option<u32>)
    ensures
        r == parse_u32_spec(s@),
{
    s.parse::<u32>().ok()
}

/// The syscall numbers queried when the command line names none that parse.
pub open spec fn default_sysnos() -> Seq<u32> {
    seq![22u32, 64u32, 113u32]
}

/// The arguments that parse as syscall numbers, parsed, in argument order.
pub open spec fn valid_sysnos(args: Seq<Seq<char>>) -> Seq<u32>
    decreases args.len(),
{
    if args.len() == 0 {
        Seq::empty()
    } else {
        let prefix = valid_sysnos(args.drop_last());
        match parse_u32_spec(args.last()) {
            Some(v) => prefix.push(v),
            None => prefix,
        }
    }
}

/// The positions of the arguments that do not parse, in increasing order.
pub open spec fn ignored_positions(args: Seq<Seq<char>>) -> Seq<usize>
    decreases args.len(),
{
    if args.len() == 0 {
        Seq::empty()
    } else {
        let prefix = ignored_positions(args.drop_last());
        match parse_u32_spec(args.last()) {
            Some(_) => prefix,
            None => prefix.push((args.len() - 1) as usize),
        }
    }
}

/// The syscall numbers to query: the valid arguments, or the defaults when
/// there are none.
pub open spec fn sysnos_from_args(args: Seq<Seq<char>>) -> Seq<u32> {
    if valid_sysnos(args).len() == 0 {
        default_sysnos()
    } else {
        valid_sysnos(args)
    }
}

/// The text of each argument.
pub open spec fn arg_texts(args: Seq<String>) -> Seq<Seq<char>> {
    args.map_values(|s: String| s@)
}

/// Turns the command-line arguments (program name excluded) into the syscall
/// numbers to query.  Arguments that are not decimal `u32`s are skipped, and
/// their positions are returned so that the caller can report them; when no
/// argument is usable the defaults 22, 64 and 113 are used.
pub fn parse_sysnos(args: &Vec<String>) -> (r: (Vec<u32>, Vec<usize>))
    ensures
        r.0@ == sysnos_from_args(arg_texts(args@)),
        r.1@ == ignored_positions(arg_texts(args@)),
        r.0@.len() > 0,
        valid_sysnos(arg_texts(args@)).len() > 0 ==> r.0@.len() + r.1@.len() == args@.len(),
{
    let ghost texts = arg_texts(args@);
    let mut out: Vec<u32> = Vec::new();
    let mut ignored: Vec<usize> = Vec::new();
    let mut i: usize = 0;
    while i < args.len()
        invariant
            texts == arg_texts(args@),
            i <= args@.len(),
            out@ == valid_sysnos(texts.take(i as int)),
            ignored@ == ignored_positions(texts.take(i as int)),
        decreases args@.len() - i,
    {
        assert(texts.take(i as int + 1).drop_last() =~= texts.take(i as int));
        assert(texts.take(i as int + 1).last() == args@[i as int]@);
        match parse_u32(args[i].as_str()) {
            Some(v) => out.push(v),
            None => ignored.push(i),
        }
        i = i + 1;
    }
    assert(texts.take(args@.len() as int) =~= texts);
    proof {
        lemma_every_arg_accounted(texts);
    }
    if out.len() == 0 {
        let defaults: Vec<u32> = vec![22, 64, 113];
        assert(defaults@ =~= default_sysnos());
        (defaults, ignored)
    } else {
        (out, ignored)
    }
}


/// Every argument is accounted for: it is either used as a syscall number or
/// reported as ignored, never both and never neither.
pub proof fn lemma_every_arg_accounted(args: Seq<Seq<char>>)
    requires
        args.len() <= usize::MAX,
    ensures
        valid_sysnos(args).len() + ignored_positions(args).len() == args.len(),
        forall|k: int|
            0 <= k < ignored_positions(args).len() ==> {
                let p = #[trigger] ignored_positions(args)[k];
                p < args.len() && parse_u32_spec(args[p as int]) is None
            },
    decreases args.len(),
{
    if args.len() > 0 {
        let prefix = args.drop_last();
        lemma_every_arg_accounted(prefix);
        assert forall|k: int| 0 <= k < ignored_positions(args).len() implies {
            let p = #[trigger] ignored_positions(args)[k];
            p < args.len() && parse_u32_spec(args[p as int]) is None
        } by {
            let ip = ignored_positions(prefix);
            if k < ip.len() {
                let p = ip[k];
                assert(ignored_positions(args)[k] == p);
                assert(args[p as int] == prefix[p as int]);
            } else {
                assert(parse_u32_spec(args.last()) is None);
                assert(ignored_positions(args)[k] == (args.len() - 1) as usize);
            }
        }
    }
}


/// When some argument parses, the syscall numbers queried are exactly the
/// parsed arguments: every parsed value is queried, and together with the
/// ignored arguments they account for every argument; when none parses, the
/// defaults 22, 64 and 113 are queried.
pub proof fn lemma_queried_sysnos(args: Seq<Seq<char>>)
    requires
        args.len() <= usize::MAX,
    ensures
        (exists|i: int| 0 <= i < args.len() && parse_u32_spec(#[trigger] args[i]) is Some) ==> {
            &&& sysnos_from_args(args).len() + ignored_positions(args).len() == args.len()
            &&& forall|i: int|
                0 <= i < args.len() && parse_u32_spec(#[trigger] args[i]) is Some
                    ==> sysnos_from_args(args).contains(parse_u32_spec(args[i])->Some_0)
        },
        (forall|i: int| 0 <= i < args.len() ==> parse_u32_spec(#[trigger] args[i]) is None)
            ==> sysnos_from_args(args) == seq![22u32, 64u32, 113u32],
{
    lemma_every_arg_accounted(args);
    lemma_valid_contains(args);
    if forall|i: int| 0 <= i < args.len() ==> parse_u32_spec(#[trigger] args[i]) is None {
        lemma_valid_empty(args);
    }
}

proof fn lemma_valid_contains(args: Seq<Seq<char>>)
    ensures
        forall|i: int|
            0 <= i < args.len() && parse_u32_spec(#[trigger] args[i]) is Some
                ==> valid_sysnos(args).contains(parse_u32_spec(args[i])->Some_0),
        (exists|i: int| 0 <= i < args.len() && parse_u32_spec(#[trigger] args[i]) is Some)
            ==> valid_sysnos(args).len() > 0,
    decreases args.len(),
{
    if args.len() > 0 {
        let pre = args.drop_last();
        lemma_valid_contains(pre);
        let vp = valid_sysnos(pre);
        assert forall|i: int|
            0 <= i < args.len() && parse_u32_spec(#[trigger] args[i]) is Some
                implies valid_sysnos(args).contains(parse_u32_spec(args[i])->Some_0) by {
            if i < args.len() - 1 {
                assert(pre[i] == args[i]);
                let j = choose|j: int| 0 <= j < vp.len() && vp[j] == parse_u32_spec(pre[i])->Some_0;
                assert(valid_sysnos(args)[j] == vp[j]);
            } else {
                let v = valid_sysnos(args);
                assert(v[v.len() - 1] == parse_u32_spec(args[i])->Some_0);
            }
        }
        if exists|i: int| 0 <= i < args.len() && parse_u32_spec(#[trigger] args[i]) is Some {
            let i = choose|i: int| 0 <= i < args.len() && parse_u32_spec(#[trigger] args[i]) is Some;
            assert(valid_sysnos(args).contains(parse_u32_spec(args[i])->Some_0));
        }
    }
}

proof fn lemma_valid_empty(args: Seq<Seq<char>>)
    requires
        forall|i: int| 0 <= i < args.len() ==> parse_u32_spec(#[trigger] args[i]) is None,
    ensures
        valid_sysnos(args).len() == 0,
    decreases args.len(),
{
    if args.len() > 0 {
        let pre = args.drop_last();
        assert forall|i: int| 0 <= i < pre.len() implies parse_u32_spec(#[trigger] pre[i]) is None by {
            assert(pre[i] == args[i]);
        }
        lemma_valid_empty(pre);
        assert(parse_u32_spec(args[args.len() - 1]) is None);
    }
}

} // verus!
