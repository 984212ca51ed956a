//! Default file names: locked output, unlocked output, and key backups.
use vstd::prelude::*;

verus! {

/// The extension added to a locked file's name.
pub open spec fn locked_extension() -> Seq<char> {
    seq!['.', 'd', 'e', 'a', 'd', 'b', 'o', 'l', 't']
}

/// The extension added to an unlocked file's name when the input lacks `.deadbolt`.
pub open spec fn unlocked_extension() -> Seq<char> {
    seq!['.', 'd', 'e', 'c', 'r', 'y', 'p', 't', 'e', 'd']
}

/// The infix between a key file's name and its backup timestamp.
pub open spec fn backup_infix() -> Seq<char> {
    seq!['.', 'b', 'a', 'c', 'k', 'u', 'p', '.']
}

/// The ten decimal digits.
pub open spec fn digits() -> Seq<char> {
    seq!['0', '1', '2', '3', '4', '5', '6', '7', '8', '9']
}

/// The decimal notation of `n`, without leading zeros.
pub open spec fn decimal(n: nat) -> Seq<char>
    decreases n,
{
    if n < 10 {
        seq![digits()[n as int]]
    } else {
        decimal(n / 10) + seq![digits()[(n % 10) as int]]
    }
}

/// Where a locked copy of `path` goes: the name with `.deadbolt` added.
pub open spec fn locked_path_of(path: Seq<char>) -> Seq<char> {
    path + locked_extension()
}

/// `path` ends in `.deadbolt` and has something before it.
pub open spec fn has_locked_extension(path: Seq<char>) -> bool {
    &&& path.len() > locked_extension().len()
    &&& path.subrange(path.len() - locked_extension().len(), path.len() as int)
        == locked_extension()
}

/// Where an unlocked copy of `path` goes: the name with `.deadbolt` stripped, or
/// with `.decrypted` added when it does not end in `.deadbolt`.
pub open spec fn unlocked_path_of(path: Seq<char>) -> Seq<char> {
    if has_locked_extension(path) {
        path.subrange(0, path.len() - locked_extension().len())
    } else {
        path + unlocked_extension()
    }
}

/// The backup name of a key file: `<path>.backup.<unix-timestamp>`.
pub open spec fn backup_path_of(path: Seq<char>, timestamp: nat) -> Seq<char> {
    path + backup_infix() + decimal(timestamp)
}

/// The default output path of locking `path`.
pub fn locked_path(path: &str) -> (r: String)
    ensures
        r@ == locked_path_of(path@),
{
    proof {
        reveal_strlit(".deadbolt");
    }
    assert(".deadbolt"@ =~= locked_extension());
    String::from_str(path).concat(".deadbolt")
}

/// The default output path of unlocking `path`.
pub fn unlocked_path(path: &str) -> (r: String)
    ensures
        r@ == unlocked_path_of(path@),
{
    proof {
        reveal_strlit(".deadbolt");
        reveal_strlit(".decrypted");
    }
    let ext = ".deadbolt";
    assert(ext@ =~= locked_extension());
    assert(".decrypted"@ =~= unlocked_extension());
    let n = path.unicode_len();
    // the length of `.deadbolt`
    let k: usize = 9;
    if n > k {
        let start = n - k;
        let mut i: usize = 0;
        let mut same = true;
        while i < k
            invariant
                i <= k == ext@.len(),
                start + k == n == path@.len(),
                same <==> forall|j: int| 0 <= j < i ==> path@[start + j] == ext@[j],
            decreases k - i,
        {
            if path.get_char(start + i) != ext.get_char(i) {
                same = false;
            }
            i = i + 1;
        }
        let tail = Ghost(path@.subrange(start as int, n as int));
        if same {
            assert(tail@ =~= locked_extension());
            return String::from_str(path.substring_char(0, start));
        } else {
            assert(tail@ != locked_extension()) by {
                let j = choose|j: int| 0 <= j < k && path@[start + j] != ext@[j];
                assert(tail@[j] == path@[start + j]);
            }
        }
    }
    String::from_str(path).concat(".decrypted")
}

/// The one-character string of a digit.
fn digit_str(d: u64) -> (r: &'static str)
    requires
        d < 10,
    ensures
        r@ == seq![digits()[d as int]],
{
    let r = match d {
        0 => {
            proof {
                reveal_strlit("0");
            }
            "0"
        },
        1 => {
            proof {
                reveal_strlit("1");
            }
            "1"
        },
        2 => {
            proof {
                reveal_strlit("2");
            }
            "2"
        },
        3 => {
            proof {
                reveal_strlit("3");
            }
            "3"
        },
        4 => {
            proof {
                reveal_strlit("4");
            }
            "4"
        },
        5 => {
            proof {
                reveal_strlit("5");
            }
            "5"
        },
        6 => {
            proof {
                reveal_strlit("6");
            }
            "6"
        },
        7 => {
            proof {
                reveal_strlit("7");
            }
            "7"
        },
        8 => {
            proof {
                reveal_strlit("8");
            }
            "8"
        },
        _ => {
            proof {
                reveal_strlit("9");
            }
            "9"
        },
    };
    assert(r@ =~= seq![digits()[d as int]]);
    r
}

/// Appends the decimal notation of `n`.
fn append_decimal(s: &mut String, n: u64)
    ensures
        final(s)@ == old(s)@ + decimal(n as nat),
    decreases n,
{
    if n >= 10 {
        append_decimal(s, n / 10);
    }
    s.append(digit_str(n % 10));
    assert(final(s)@ =~= old(s)@ + decimal(n as nat));
}

/// The backup name of a key file, for a timestamp in seconds since the Unix epoch.
pub fn backup_path(path: &str, timestamp: u64) -> (r: String)
    ensures
        r@ == backup_path_of(path@, timestamp as nat),
{
    proof {
        reveal_strlit(".backup.");
    }
    assert(".backup."@ =~= backup_infix());
    let mut r = String::from_str(path).concat(".backup.");
    append_decimal(&mut r, timestamp);
    assert(r@ =~= backup_path_of(path@, timestamp as nat));
    r
}

} // verus!
