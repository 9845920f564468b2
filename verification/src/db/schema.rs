//! Schema version handling: which migrations a database still needs, how a
//! stored schema version is read, and how an existing database is upgraded.
use vstd::prelude::*;

use crate::error::AppError;
use crate::text::{push_all, str_eq};

verus! {

/// Version reached by the numbered migration chain.
pub const LATEST_MIGRATION: i32 = 11;

/// Version of a freshly created or fully upgraded database.
pub const CURRENT_SCHEMA_VERSION: u32 = 15;

/// The migrations still to apply to a database at version `from`, in order:
/// every version above `from`, from 1 up to `LATEST_MIGRATION`.
pub open spec fn migration_steps(from: i32) -> Seq<i32> {
    let start: int = if from < 1 {
        1
    } else {
        from + 1
    };
    if from >= LATEST_MIGRATION {
        Seq::empty()
    } else {
        Seq::new((LATEST_MIGRATION + 1 - start) as nat, |k: int| (start + k) as i32)
    }
}

/// The migrations a database at version `from` still needs.
pub fn pending_migrations(from_version: i32) -> (r: Vec<i32>)
    ensures
        r@ == migration_steps(from_version),
{
    let mut out: Vec<i32> = Vec::new();
    if from_version >= LATEST_MIGRATION {
        assert(out@ =~= migration_steps(from_version));
        return out;
    }
    let start: i32 = if from_version < 1 {
        1
    } else {
        from_version + 1
    };
    let mut v = start;
    while v <= LATEST_MIGRATION
        invariant
            1 <= start <= v <= LATEST_MIGRATION + 1,
            start == (if from_version < 1 {
                1
            } else {
                from_version + 1
            }),
            from_version < LATEST_MIGRATION,
            out@ == Seq::new((v - start) as nat, |k: int| (start + k) as i32),
        decreases LATEST_MIGRATION + 1 - v,
    {
        out.push(v);
        v = v + 1;
        assert(out@ =~= Seq::new((v - start) as nat, |k: int| (start + k) as i32));
    }
    assert(out@ =~= migration_steps(from_version));
    out
}

/// Migrations run in increasing order, each above the starting version, and
/// end at the latest version; a database at the latest version needs none,
/// so running the chain twice applies nothing the second time.
pub proof fn lemma_migration_steps(from: i32)
    ensures
        forall|k: int|
            0 <= k < migration_steps(from).len() ==> #[trigger] migration_steps(from)[k] > from
                && 1 <= migration_steps(from)[k] <= LATEST_MIGRATION,
        forall|a: int, b: int|
            0 <= a < b < migration_steps(from).len() ==> migration_steps(from)[a]
                < migration_steps(from)[b],
        migration_steps(from).len() > 0 ==> migration_steps(from).last() == LATEST_MIGRATION,
        from < LATEST_MIGRATION ==> migration_steps(from).len() > 0,
        migration_steps(LATEST_MIGRATION).len() == 0,
{
}

/// Whether `c` is an ASCII digit.
pub open spec fn is_ascii_digit(c: char) -> bool {
    '0' <= c && c <= '9'
}

/// The value of the decimal digits `ds`.
pub open spec fn digits_value(ds: Seq<char>) -> int
    decreases ds.len(),
{
    if ds.len() == 0 {
        0
    } else {
        digits_value(ds.drop_last()) * 10 + (ds.last() as int - '0' as int)
    }
}

/// The `i32` that `str::parse::<i32>` reads from `s`: an optional `+` or
/// `-` followed by one or more ASCII digits, whose value fits in `i32`;
/// `None` for any other text.
pub open spec fn decimal_i32(s: Seq<char>) -> Option<i32> {
    let signed = s.len() > 0 && (s[0] == '+' || s[0] == '-');
    let ds = if signed {
        s.drop_first()
    } else {
        s
    };
    let v = if signed && s[0] == '-' {
        -digits_value(ds)
    } else {
        digits_value(ds)
    };
    if ds.len() > 0 && (forall|i: int| 0 <= i < ds.len() ==> is_ascii_digit(#[trigger] ds[i]))
        && i32::MIN <= v <= i32::MAX {
        Some(v as i32)
    } else {
        None
    }
}

/// The message of the error `str::parse::<i32>` reports for `s`, as its
/// `Display` renders it.
pub uninterp spec fn parse_i32_error_message(s: Seq<char>) -> Seq<char>;

/// Calls `str::parse::<i32>` and renders a parse error with its `Display`.
/// std documents the accepted form: an optional sign followed only by
/// digits, with the value in range; the text of the error message is not
/// documented and is named.
#[verifier::external_body]
fn parse_i32(s: &str) -> (r: Result<i32, String>)
    ensures
        match r {
            Ok(v) => decimal_i32(s@) == Some(v),
            Err(e) => decimal_i32(s@) is None && e@ == parse_i32_error_message(s@),
        },
{
    s.parse::<i32>().map_err(|e| e.to_string())
}

/// Reads the stored schema version: 0 when none is stored, the number when
/// it parses, else an error naming the parse failure.
pub fn parse_schema_version(stored: Option<&str>) -> (r: Result<i32, AppError>)
    ensures
        match stored {
            None => r == Ok::<i32, AppError>(0),
            Some(s) => match decimal_i32(s@) {
                Some(v) => r == Ok::<i32, AppError>(v),
                None => r matches Err(AppError::Other(m)) && m@ == "Invalid schema_version: "@
                    + parse_i32_error_message(s@),
            },
        },
{
    match stored {
        None => Ok(0),
        Some(s) => match parse_i32(s) {
            Ok(v) => Ok(v),
            Err(e) => {
                let mut m = "Invalid schema_version: ".to_owned();
                push_all(&mut m, e.as_str());
                Err(AppError::Other(m))
            },
        },
    }
}

/// The upgrades an existing database at stored version `v` goes through, in
/// order, to reach the current version; `None` for a version the chain does
/// not know.
pub open spec fn upgrade_targets(v: Seq<char>) -> Option<Seq<u32>> {
    if v == "1"@ {
        Some(seq![11u32, 12u32, 13u32, 14u32, 15u32])
    } else if v == "11"@ {
        Some(seq![12u32, 13u32, 14u32, 15u32])
    } else if v == "12"@ {
        Some(seq![13u32, 14u32, 15u32])
    } else if v == "13"@ {
        Some(seq![14u32, 15u32])
    } else if v == "14"@ {
        Some(seq![15u32])
    } else if v == "15"@ {
        Some(Seq::empty())
    } else {
        None
    }
}

/// Plans the upgrade of an existing database whose stored version is
/// `version`; an unknown version is an error naming it.
pub fn schema_upgrade_path(version: &str) -> (r: Result<Vec<u32>, AppError>)
    ensures
        match upgrade_targets(version@) {
            Some(t) => r matches Ok(steps) && steps@ == t,
            None => r matches Err(AppError::Other(m)) && m@ == "Unsupported database version: got "@
                + version@ + ", expected 15"@,
        },
{
    let steps: Vec<u32> = if str_eq(version, "1") {
        vec![11, 12, 13, 14, 15]
    } else if str_eq(version, "11") {
        vec![12, 13, 14, 15]
    } else if str_eq(version, "12") {
        vec![13, 14, 15]
    } else if str_eq(version, "13") {
        vec![14, 15]
    } else if str_eq(version, "14") {
        vec![15]
    } else if str_eq(version, "15") {
        Vec::new()
    } else {
        let mut m = "Unsupported database version: got ".to_owned();
        push_all(&mut m, version);
        push_all(&mut m, ", expected 15");
        return Err(AppError::Other(m));
    };
    proof {
        assert(steps@ =~= upgrade_targets(version@)->0);
    }
    Ok(steps)
}

/// Every known version upgrades in increasing steps to the current version,
/// and a database already at the current version needs no upgrade.
pub proof fn lemma_upgrade_targets(v: Seq<char>)
    ensures
        upgrade_targets(v) matches Some(t) ==> (t.len() == 0 || t.last() == CURRENT_SCHEMA_VERSION),
        upgrade_targets(v) matches Some(t) ==> forall|a: int, b: int|
            0 <= a < b < t.len() ==> t[a] < t[b],
        upgrade_targets("15"@) == Some(Seq::<u32>::empty()),
{
    reveal_strlit("1");
    reveal_strlit("11");
    reveal_strlit("12");
    reveal_strlit("13");
    reveal_strlit("14");
    reveal_strlit("15");
    assert("1"@.len() == 1);
    assert("15"@.len() == 2 && "15"@[0] == '1' && "15"@[1] == '5');
    assert("11"@.len() == 2 && "11"@[1] == '1');
    assert("12"@.len() == 2 && "12"@[1] == '2');
    assert("13"@.len() == 2 && "13"@[1] == '3');
    assert("14"@.len() == 2 && "14"@[1] == '4');
}

proof fn lemma_two_digit_value(s: Seq<char>)
    requires
        s.len() == 2,
        is_ascii_digit(s[0]),
        is_ascii_digit(s[1]),
    ensures
        decimal_i32(s) == Some(((s[0] as int - '0' as int) * 10 + (s[1] as int - '0' as int)) as i32),
{
    let a = s.drop_last();
    assert(a.drop_last().len() == 0);
    assert(digits_value(a.drop_last()) == 0);
    assert(a.last() == s[0]);
    assert(digits_value(a) == s[0] as int - '0' as int);
    assert(s.last() == s[1]);
    assert(forall|i: int| 0 <= i < s.len() ==> is_ascii_digit(#[trigger] s[i]));
}

/// An upgrade goes up one schema version at a time: the stored version
/// reads as a number `n`, the first step leads to `n + 1` (from version 1,
/// which predates the numbered chain, straight to 11), each step is one
/// more than the one before, the last reaches the current version, and a
/// database already at the current version takes no step.
pub proof fn lemma_upgrade_steps_by_one(v: Seq<char>)
    ensures
        upgrade_targets(v) matches Some(t) ==> {
            &&& decimal_i32(v) is Some
            &&& (t.len() == 0 <==> decimal_i32(v)->0 == CURRENT_SCHEMA_VERSION)
            &&& t.len() > 0 ==> t[0] == (if decimal_i32(v)->0 == 1 {
                11
            } else {
                decimal_i32(v)->0 + 1
            })
            &&& forall|k: int| 0 <= k < t.len() - 1 ==> #[trigger] t[k + 1] == t[k] + 1
            &&& t.len() > 0 ==> t.last() == CURRENT_SCHEMA_VERSION
        },
{
    reveal_strlit("1");
    reveal_strlit("11");
    reveal_strlit("12");
    reveal_strlit("13");
    reveal_strlit("14");
    reveal_strlit("15");
    if upgrade_targets(v) is Some {
        if v == "1"@ {
            assert(v.len() == 1 && v[0] == '1');
            assert(v.drop_last().len() == 0);
            assert(digits_value(v.drop_last()) == 0);
            assert(digits_value(v) == 1);
            assert(forall|i: int| 0 <= i < v.len() ==> is_ascii_digit(#[trigger] v[i]));
            assert(decimal_i32(v) == Some(1i32));
        } else {
            assert(v.len() == 2 && v[0] == '1');
            assert(is_ascii_digit(v[1]));
            lemma_two_digit_value(v);
        }
    }
}

/// Reads the first row of the integrity check: anything but `ok` means the
/// database file is corrupt.
pub fn integrity_verdict(first_row: Option<&str>) -> (r: Result<(), AppError>)
    ensures
        match first_row {
            Some(v) if v@ != "ok"@ => r matches Err(AppError::Other(m)) && m@
                == "Database corruption detected! Integrity check failed."@,
            _ => r is Ok,
        },
{
    match first_row {
        Some(v) => {
            if !str_eq(v, "ok") {
                Err(AppError::Other("Database corruption detected! Integrity check failed.".to_owned()))
            } else {
                Ok(())
            }
        },
        None => Ok(()),
    }
}

} // verus!
