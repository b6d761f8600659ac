use vstd::prelude::*;
use vstd::string::*;

use crate::meta::DeploymentMeta;
use crate::types::connection_string_of;
use crate::types::DatabaseReadyInfo;
use crate::types::DeploymentApiError;
use crate::types::DeploymentStateMeta;

verus! {

/// The address under which tenant databases are reachable.
pub const PUBLIC_IP: &'static str = "localhost";

/// The decimal digit character for a value below ten.
pub open spec fn digit_char(d: int) -> char {
    if d == 0 {
        '0'
    } else if d == 1 {
        '1'
    } else if d == 2 {
        '2'
    } else if d == 3 {
        '3'
    } else if d == 4 {
        '4'
    } else if d == 5 {
        '5'
    } else if d == 6 {
        '6'
    } else if d == 7 {
        '7'
    } else if d == 8 {
        '8'
    } else {
        '9'
    }
}

/// The decimal spelling of a non-negative number.
pub open spec fn dec_of(n: int) -> Seq<char>
    decreases n,
{
    if n < 10 {
        seq![digit_char(n)]
    } else {
        dec_of(n / 10).push(digit_char(n % 10))
    }
}

/// The decimal spelling of a signed number.
pub open spec fn dec_of_signed(n: int) -> Seq<char> {
    if n < 0 {
        seq!['-'] + dec_of(-n)
    } else {
        dec_of(n)
    }
}

/// The one-character string for a decimal digit.
fn digit_str(d: u128) -> (r: &'static str)
    requires
        d < 10,
    ensures
        r@ == seq![digit_char(d as int)],
{
    let r: &'static str = match d {
        0 => "0",
        1 => "1",
        2 => "2",
        3 => "3",
        4 => "4",
        5 => "5",
        6 => "6",
        7 => "7",
        8 => "8",
        _ => "9",
    };
    proof {
        reveal_strlit("0");
        reveal_strlit("1");
        reveal_strlit("2");
        reveal_strlit("3");
        reveal_strlit("4");
        reveal_strlit("5");
        reveal_strlit("6");
        reveal_strlit("7");
        reveal_strlit("8");
        reveal_strlit("9");
        assert(r@ =~= seq![digit_char(d as int)]);
    }
    r
}

/// Appends the decimal spelling of `n` to `s`.
fn push_dec(n: u128, s: &mut String)
    ensures
        final(s)@ == old(s)@ + dec_of(n as int),
    decreases n,
{
    if n < 10 {
        s.append(digit_str(n));
        proof {
            assert(final(s)@ =~= old(s)@ + dec_of(n as int));
        }
    } else {
        push_dec(n / 10, s);
        s.append(digit_str(n % 10));
        proof {
            assert(final(s)@ =~= old(s)@ + dec_of(n as int));
        }
    }
}

/// The decimal spelling of an unsigned number, as a string.
pub fn u128_dec(n: u128) -> (r: String)
    ensures
        r@ == dec_of(n as int),
{
    let mut s = String::new();
    push_dec(n, &mut s);
    proof {
        assert(s@ =~= dec_of(n as int));
    }
    s
}

/// The hexadecimal digit character for a value below sixteen.
pub open spec fn hex_char(d: int) -> char {
    if d < 10 {
        digit_char(d)
    } else if d == 10 {
        'a'
    } else if d == 11 {
        'b'
    } else if d == 12 {
        'c'
    } else if d == 13 {
        'd'
    } else if d == 14 {
        'e'
    } else {
        'f'
    }
}

/// The hexadecimal spelling of a non-negative number, zero-padded to exactly
/// `width` digits (excess high digits are dropped).
pub open spec fn hex_fixed(n: int, width: nat) -> Seq<char>
    decreases width,
{
    if width == 0 {
        Seq::<char>::empty()
    } else {
        hex_fixed(n / 16, (width - 1) as nat).push(hex_char(n % 16))
    }
}

/// The canonical hyphenated spelling of a 128-bit identifier: five groups of
/// 8, 4, 4, 4 and 12 hexadecimal digits.
pub open spec fn uuid_hyphenated(n: int) -> Seq<char> {
    hex_fixed(n / 0x1000000000000000000000000, 8) + "-"@ + hex_fixed(
        (n / 0x100000000000000000000) % 0x10000,
        4,
    ) + "-"@ + hex_fixed((n / 0x10000000000000000) % 0x10000, 4) + "-"@ + hex_fixed(
        (n / 0x1000000000000) % 0x10000,
        4,
    ) + "-"@ + hex_fixed(n % 0x1000000000000, 12)
}

/// The one-character string for a hexadecimal digit.
fn hex_digit_str(d: u128) -> (r: &'static str)
    requires
        d < 16,
    ensures
        r@ == seq![hex_char(d as int)],
{
    if d < 10 {
        digit_str(d)
    } else {
        let r: &'static str = match d {
            10 => "a",
            11 => "b",
            12 => "c",
            13 => "d",
            14 => "e",
            _ => "f",
        };
        proof {
            reveal_strlit("a");
            reveal_strlit("b");
            reveal_strlit("c");
            reveal_strlit("d");
            reveal_strlit("e");
            reveal_strlit("f");
            assert(r@ =~= seq![hex_char(d as int)]);
        }
        r
    }
}

/// Appends exactly `width` hexadecimal digits of `n` to `s`.
fn push_hex_fixed(n: u128, width: u32, s: &mut String)
    ensures
        final(s)@ == old(s)@ + hex_fixed(n as int, width as nat),
    decreases width,
{
    if width == 0 {
        proof {
            assert(final(s)@ =~= old(s)@ + hex_fixed(n as int, 0));
        }
    } else {
        push_hex_fixed(n / 16, width - 1, s);
        s.append(hex_digit_str(n % 16));
        proof {
            assert(final(s)@ =~= old(s)@ + hex_fixed(n as int, width as nat));
        }
    }
}

/// The canonical hyphenated spelling of a 128-bit identifier, as a string.
pub fn uuid_string(n: u128) -> (r: String)
    ensures
        r@ == uuid_hyphenated(n as int),
{
    let mut s = String::new();
    push_hex_fixed(n / 0x1000000000000000000000000u128, 8, &mut s);
    s.append("-");
    push_hex_fixed((n / 0x100000000000000000000u128) % 0x10000, 4, &mut s);
    s.append("-");
    push_hex_fixed((n / 0x10000000000000000u128) % 0x10000, 4, &mut s);
    s.append("-");
    push_hex_fixed((n / 0x1000000000000u128) % 0x10000, 4, &mut s);
    s.append("-");
    push_hex_fixed(n % 0x1000000000000u128, 12, &mut s);
    proof {
        assert(s@ =~= uuid_hyphenated(n as int));
    }
    s
}

/// The decimal spelling of a signed number, as a string.
pub fn i64_dec(n: i64) -> (r: String)
    ensures
        r@ == dec_of_signed(n as int),
{
    if n < 0 {
        let m: u128 = (-(n as i128)) as u128;
        let mut s = String::from_str("-");
        proof {
            reveal_strlit("-");
        }
        push_dec(m, &mut s);
        proof {
            assert(s@ =~= dec_of_signed(n as int));
        }
        s
    } else {
        u128_dec(n as u128)
    }
}

/// The label the control plane prints for a state.
pub open spec fn render_state(s: DeploymentStateMeta) -> Seq<char> {
    match s {
        DeploymentStateMeta::Queued => "QUEUED"@,
        DeploymentStateMeta::Built => "BUILT"@,
        DeploymentStateMeta::Loaded => "LOADED"@,
        DeploymentStateMeta::Deployed => "DEPLOYED"@,
        DeploymentStateMeta::Error(msg) => "ERROR: "@ + msg@,
        DeploymentStateMeta::Deleted => "DELETED"@,
    }
}

impl DeploymentStateMeta {
    /// The state as the control plane prints it.
    pub fn display_string(&self) -> (r: String)
        ensures
            r@ == render_state(*self),
    {
        match self {
            DeploymentStateMeta::Queued => String::from_str("QUEUED"),
            DeploymentStateMeta::Built => String::from_str("BUILT"),
            DeploymentStateMeta::Loaded => String::from_str("LOADED"),
            DeploymentStateMeta::Deployed => String::from_str("DEPLOYED"),
            DeploymentStateMeta::Error(msg) => {
                let mut s = String::from_str("ERROR: ");
                s.append(msg.as_str());
                s
            },
            DeploymentStateMeta::Deleted => String::from_str("DELETED"),
        }
    }
}

/// The line the control plane prints for an error.
pub open spec fn render_error(e: DeploymentApiError) -> Seq<char> {
    match e {
        DeploymentApiError::Internal(s) => "internal: "@ + s@,
        DeploymentApiError::Unavailable(s) => "unavailable: "@ + s@,
        DeploymentApiError::NotFound(s) => "not found: "@ + s@,
        DeploymentApiError::BadRequest(s) => "bad request: "@ + s@,
        DeploymentApiError::ProjectAlreadyExists(s) => "conflict: "@ + s@,
    }
}

impl DeploymentApiError {
    /// The error as the control plane prints it.
    pub fn display_string(&self) -> (r: String)
        ensures
            r@ == render_error(*self),
    {
        let (prefix, msg): (&'static str, &String) = match self {
            DeploymentApiError::Internal(s) => ("internal: ", s),
            DeploymentApiError::Unavailable(s) => ("unavailable: ", s),
            DeploymentApiError::NotFound(s) => ("not found: ", s),
            DeploymentApiError::BadRequest(s) => ("bad request: ", s),
            DeploymentApiError::ProjectAlreadyExists(s) => ("conflict: ", s),
        };
        let mut r = String::from_str(prefix);
        r.append(msg.as_str());
        r
    }
}

/// The database line of a metadata report, when credentials are attached.
pub open spec fn render_db_line(db: Option<DatabaseReadyInfo>) -> Seq<char> {
    match db {
        Some(info) => "\n        Database URI:       "@ + connection_string_of(
            info.role_name@,
            info.role_password@,
            PUBLIC_IP@,
            info.database_name@,
        ),
        None => Seq::<char>::empty(),
    }
}

/// The report the control plane prints for a deployment.
pub open spec fn render_meta(m: DeploymentMeta) -> Seq<char> {
    "\n        Project:            "@ + m.config.name@ + "\n        Deployment Id:      "@
        + uuid_hyphenated(m.id as int) + "\n        Deployment Status:  "@ + render_state(m.state)
        + "\n        Host:               "@ + m.host@ + "\n        Created At:         "@
        + dec_of_signed(m.created_at as int) + render_db_line(m.database_deployment) + "\n        "@
}

impl DeploymentMeta {
    /// The deployment report as the control plane prints it.
    pub fn display_string(&self) -> (r: String)
        ensures
            r@ == render_meta(*self),
    {
        let mut r = String::from_str("\n        Project:            ");
        r.append(self.config.name.as_str());
        r.append("\n        Deployment Id:      ");
        let id_s = uuid_string(self.id);
        r.append(id_s.as_str());
        r.append("\n        Deployment Status:  ");
        let st = self.state.display_string();
        r.append(st.as_str());
        r.append("\n        Host:               ");
        r.append(self.host.as_str());
        r.append("\n        Created At:         ");
        let at = i64_dec(self.created_at);
        r.append(at.as_str());
        match &self.database_deployment {
            Some(info) => {
                r.append("\n        Database URI:       ");
                let conn = info.connection_string(PUBLIC_IP);
                r.append(conn.as_str());
            },
            None => {},
        }
        r.append("\n        ");
        proof {
            assert(r@ =~= render_meta(*self));
        }
        r
    }
}

} // verus!
