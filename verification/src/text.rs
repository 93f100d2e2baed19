//! Text produced by the registry: decimal numbers, pool type names and the
//! one-line worker summary of an environment.
use vstd::prelude::*;
use crate::types::{pools_view, PoolType, ToolError, WorkerPool, WorkerPoolView};

verus! {

/// The decimal digit character for `d` (`d < 10`).
pub open spec fn digit_char(d: nat) -> char {
    if d == 0 {
        '0'
    } else if d == 1 {
        '1'
    } else if d == 2 {
        '2'
    } else if d == 3 {
        '3'
    } else if d == 4 {
        '4'
    } else if d == 5 {
        '5'
    } else if d == 6 {
        '6'
    } else if d == 7 {
        '7'
    } else if d == 8 {
        '8'
    } else {
        '9'
    }
}

/// The decimal writing of `n`, without leading zeros.
pub open spec fn decimal(n: nat) -> Seq<char>
    decreases n,
{
    if n < 10 {
        seq![digit_char(n)]
    } else {
        decimal(n / 10) + seq![digit_char(n % 10)]
    }
}

fn digit_text(d: u64) -> (s: String)
    requires
        d < 10,
    ensures
        s@ == seq![digit_char(d as nat)],
{
    proof {
        reveal_strlit("0");
        reveal_strlit("1");
        reveal_strlit("2");
        reveal_strlit("3");
        reveal_strlit("4");
        reveal_strlit("5");
        reveal_strlit("6");
        reveal_strlit("7");
        reveal_strlit("8");
        reveal_strlit("9");
    }
    let s = if d == 0 {
        "0"
    } else if d == 1 {
        "1"
    } else if d == 2 {
        "2"
    } else if d == 3 {
        "3"
    } else if d == 4 {
        "4"
    } else if d == 5 {
        "5"
    } else if d == 6 {
        "6"
    } else if d == 7 {
        "7"
    } else if d == 8 {
        "8"
    } else {
        "9"
    };
    assert(s@ =~= seq![digit_char(d as nat)]);
    String::from_str(s)
}

/// Writes `n` in decimal.
pub fn decimal_text(n: u64) -> (s: String)
    ensures
        s@ == decimal(n as nat),
{
    let mut rest: u64 = n / 10;
    let mut s = digit_text(n % 10);
    while rest > 0
        invariant
            rest > 0 ==> decimal(n as nat) == decimal(rest as nat) + s@,
            rest == 0 ==> decimal(n as nat) == s@,
        decreases rest,
    {
        let d = digit_text(rest % 10);
        let ghost old_s = s@;
        s = d.concat(s.as_str());
        assert(decimal(rest as nat) == if (rest as nat) < 10 {
            seq![digit_char(rest as nat)]
        } else {
            decimal((rest / 10) as nat) + seq![digit_char((rest % 10) as nat)]
        });
        if rest < 10 {
            assert(rest % 10 == rest);
        }
        assert(decimal(n as nat) =~= if rest / 10 > 0 {
            decimal((rest / 10) as nat) + s@
        } else {
            s@
        });
        rest = rest / 10;
    }
    s
}

/// The name of a pool type as it is written in summaries and messages.
pub open spec fn pool_type_name(p: PoolType) -> Seq<char> {
    match p {
        PoolType::Model => "Model"@,
        PoolType::Graph => "Graph"@,
        PoolType::Browser => "Browser"@,
        PoolType::Code => "Code"@,
        PoolType::Realtime => "Realtime"@,
        PoolType::Payment => "Payment"@,
        PoolType::Mcp => "Mcp"@,
        PoolType::A2a => "A2a"@,
        PoolType::Acp => "Acp"@,
    }
}

/// The name of a pool type.
pub fn pool_type_label(p: PoolType) -> (s: &'static str)
    ensures
        s@ == pool_type_name(p),
{
    match p {
        PoolType::Model => "Model",
        PoolType::Graph => "Graph",
        PoolType::Browser => "Browser",
        PoolType::Code => "Code",
        PoolType::Realtime => "Realtime",
        PoolType::Payment => "Payment",
        PoolType::Mcp => "Mcp",
        PoolType::A2a => "A2a",
        PoolType::Acp => "Acp",
    }
}

/// `Model:4/4`: the pool's type, its current and its desired capacity.
pub open spec fn worker_entry(p: WorkerPoolView) -> Seq<char> {
    pool_type_name(p.pool_type) + ":"@ + decimal(p.current_capacity as nat) + "/"@ + decimal(
        p.desired_capacity as nat,
    )
}

/// The entries of all pools, in order, separated by `, `.
pub open spec fn workers_line(pools: Seq<WorkerPoolView>) -> Seq<char>
    decreases pools.len(),
{
    if pools.len() == 0 {
        Seq::empty()
    } else if pools.len() == 1 {
        worker_entry(pools[0])
    } else {
        workers_line(pools.drop_last()) + ", "@ + worker_entry(pools.last())
    }
}

fn worker_entry_text(p: &WorkerPool) -> (s: String)
    ensures
        s@ == worker_entry(p@),
{
    let mut s = String::from_str(pool_type_label(p.pool_type));
    s.append(":");
    let cur = decimal_text(p.current_capacity as u64);
    s.append(cur.as_str());
    s.append("/");
    let des = decimal_text(p.desired_capacity as u64);
    s.append(des.as_str());
    s
}

/// The one-line summary of a list of worker pools.
pub fn workers_text(pools: &Vec<WorkerPool>) -> (s: String)
    ensures
        s@ == workers_line(pools_view(pools@)),
{
    let ghost pv = pools_view(pools@);
    let mut s = String::new();
    assert(pv.take(0) =~= Seq::<WorkerPoolView>::empty());
    for i in 0..pools.len()
        invariant
            pv == pools_view(pools@),
            s@ == workers_line(pv.take(i as int)),
    {
        assert(pv.take(i + 1).drop_last() =~= pv.take(i as int));
        assert(pv.take(i + 1).last() == pools[i as int]@);
        let e = worker_entry_text(&pools[i]);
        if i > 0 {
            s.append(", ");
        }
        s.append(e.as_str());
        assert(s@ =~= workers_line(pv.take(i + 1)));
    }
    assert(pv.take(pools.len() as int) =~= pv);
    s
}

/// The message that reports a refused operation.
pub open spec fn error_text(e: ToolError) -> Seq<char> {
    match e {
        ToolError::EnvironmentNotFound(id) => "Environment not found: "@ + id@,
        ToolError::PoolTypeNotFound(p) => "Pool type "@ + pool_type_name(p) + " not found"@,
        ToolError::NoPreviousDeployment => "No previous deployment to roll back to"@,
        ToolError::ApprovalRequired(id) => "Governance approval required for production environment: "@
            + id@,
        ToolError::ValidationRequired(id) => "Validation required before promotion to production environment: "@
            + id@,
        ToolError::ReasonRequired => "An audit reason is required to roll back"@,
    }
}

impl ToolError {
    /// The message that reports this refusal.
    pub fn message(&self) -> (s: String)
        ensures
            s@ == error_text(*self),
    {
        match self {
            ToolError::EnvironmentNotFound(id) => {
                String::from_str("Environment not found: ").concat(id.as_str())
            },
            ToolError::PoolTypeNotFound(p) => {
                let mut s = String::from_str("Pool type ");
                s.append(pool_type_label(*p));
                s.append(" not found");
                s
            },
            ToolError::NoPreviousDeployment => String::from_str("No previous deployment to roll back to"),
            ToolError::ApprovalRequired(id) => {
                String::from_str("Governance approval required for production environment: ").concat(
                    id.as_str(),
                )
            },
            ToolError::ValidationRequired(id) => {
                String::from_str("Validation required before promotion to production environment: ")
                    .concat(id.as_str())
            },
            ToolError::ReasonRequired => String::from_str("An audit reason is required to roll back"),
        }
    }
}

/// The value of a decimal digit character.
pub open spec fn digit_value(c: char) -> int {
    if c == '0' {
        0
    } else if c == '1' {
        1
    } else if c == '2' {
        2
    } else if c == '3' {
        3
    } else if c == '4' {
        4
    } else if c == '5' {
        5
    } else if c == '6' {
        6
    } else if c == '7' {
        7
    } else if c == '8' {
        8
    } else {
        9
    }
}

pub open spec fn is_digit(c: char) -> bool {
    '0' <= c && c <= '9'
}

/// The number a string of decimal digits stands for, read left to right.
pub open spec fn read_decimal(s: Seq<char>) -> int
    decreases s.len(),
{
    if s.len() == 0 {
        0
    } else {
        read_decimal(s.drop_last()) * 10 + digit_value(s.last())
    }
}

/// The decimal writing of a number is a non-empty string of digits, without
/// a leading zero unless it is `0`, that reads back as the number.
pub proof fn law_decimal_reads_back(n: nat)
    ensures
        decimal(n).len() >= 1,
        forall|j: int| 0 <= j < decimal(n).len() ==> is_digit(#[trigger] decimal(n)[j]),
        n > 0 ==> decimal(n)[0] != '0',
        read_decimal(decimal(n)) == n,
    decreases n,
{
    if n >= 10 {
        let q = n / 10;
        let d = n % 10;
        law_decimal_reads_back(q);
        let w = decimal(q) + seq![digit_char(d)];
        assert(decimal(n) == w);
        assert(w.drop_last() =~= decimal(q));
        assert(w[0] == decimal(q)[0]);
        assert forall|j: int| 0 <= j < w.len() implies is_digit(#[trigger] w[j]) by {
            if j < decimal(q).len() {
                assert(w[j] == decimal(q)[j]);
            }
        }
        assert(digit_value(digit_char(d)) == d);
        assert(w.last() == digit_char(d));
        assert(read_decimal(w) == read_decimal(decimal(q)) * 10 + d);
        assert(q * 10 + d == n);
    } else {
        let w = decimal(n);
        assert(w.drop_last() =~= Seq::<char>::empty());
        assert(read_decimal(w.drop_last()) == 0);
        assert(digit_value(digit_char(n)) == n);
    }
}

} // verus!
