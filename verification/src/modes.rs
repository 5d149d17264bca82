//! The vocabulary of a dispatcher's configuration: how failures are handled
//! and which selection strategy a selector follows.

use vstd::prelude::*;

verus! {

/// What a dispatcher does when an attempt fails.
#[derive(Debug, Copy, Clone, PartialEq, Eq, Structural)]
pub enum FailMode {
    /// Select another server automatically.
    Failover,
    /// Return the error immediately.
    Failfast,
    /// Use the current connection again.
    Failtry,
    /// Select another server when the first does not respond in time, and
    /// use whichever responds successfully first.
    Failbackup,
}

/// The strategy a selector follows to pick a server.
#[derive(Debug, Copy, Clone, PartialEq, Eq, Structural)]
pub enum SelectMode {
    /// Pick randomly.
    RandomSelect,
    /// Pick in turn.
    RoundRobin,
    /// Pick in turn, in proportion to the servers' weights.
    WeightedRoundRobin,
    /// Pick in proportion to weights derived from ping time.
    WeightedICMP,
    /// Pick by hashing the call.
    ConsistentHash,
    /// Pick the closest server.
    Closest,
    /// Pick by a strategy the user supplies.
    SelectByUser,
}

impl FailMode {
    /// The number that stands for this mode in configuration.
    pub open spec fn spec_code(self) -> u32 {
        match self {
            FailMode::Failover => 0,
            FailMode::Failfast => 1,
            FailMode::Failtry => 2,
            FailMode::Failbackup => 3,
        }
    }

    /// The number that stands for this mode in configuration.
    pub fn code(self) -> (c: u32)
        ensures
            c == self.spec_code(),
    {
        match self {
            FailMode::Failover => 0,
            FailMode::Failfast => 1,
            FailMode::Failtry => 2,
            FailMode::Failbackup => 3,
        }
    }

    /// The mode that a configuration number stands for, if any.
    pub fn from_code(c: u32) -> (m: Option<FailMode>)
        ensures
            match m {
                Some(mode) => mode.spec_code() == c,
                None => forall|mode: FailMode| mode.spec_code() != c,
            },
    {
        if c == 0 {
            Some(FailMode::Failover)
        } else if c == 1 {
            Some(FailMode::Failfast)
        } else if c == 2 {
            Some(FailMode::Failtry)
        } else if c == 3 {
            Some(FailMode::Failbackup)
        } else {
            None
        }
    }
}

impl FailMode {
    /// The name of this mode.
    pub open spec fn spec_name(self) -> Seq<char> {
        match self {
            FailMode::Failover => "Failover"@,
            FailMode::Failfast => "Failfast"@,
            FailMode::Failtry => "Failtry"@,
            FailMode::Failbackup => "Failbackup"@,
        }
    }

    /// The name of this mode, as it is written in configuration.
    pub fn name(self) -> (s: String)
        ensures
            s@ == self.spec_name(),
    {
        match self {
            FailMode::Failover => "Failover".to_owned(),
            FailMode::Failfast => "Failfast".to_owned(),
            FailMode::Failtry => "Failtry".to_owned(),
            FailMode::Failbackup => "Failbackup".to_owned(),
        }
    }

    /// The mode with the given name: the first, in the order of `all`,
    /// whose name it is; `None` where it is the name of no mode.
    pub fn from_name(name: &String) -> (m: Option<FailMode>)
        ensures
            match m {
                Some(mode) => name@ == mode.spec_name(),
                None => forall|mode: FailMode| name@ != mode.spec_name(),
            },
    {
        if *name == FailMode::Failover.name() {
            Some(FailMode::Failover)
        } else if *name == FailMode::Failfast.name() {
            Some(FailMode::Failfast)
        } else if *name == FailMode::Failtry.name() {
            Some(FailMode::Failtry)
        } else if *name == FailMode::Failbackup.name() {
            Some(FailMode::Failbackup)
        } else {
            None
        }
    }

    /// Every mode, in the order of declaration.
    pub fn all() -> (modes: Vec<FailMode>)
        ensures
            modes@ == seq![
                FailMode::Failover,
                FailMode::Failfast,
                FailMode::Failtry,
                FailMode::Failbackup,
            ],
    {
        let mut modes: Vec<FailMode> = Vec::new();
        modes.push(FailMode::Failover);
        modes.push(FailMode::Failfast);
        modes.push(FailMode::Failtry);
        modes.push(FailMode::Failbackup);
        assert(modes@ =~= seq![
            FailMode::Failover,
            FailMode::Failfast,
            FailMode::Failtry,
            FailMode::Failbackup,
        ]);
        modes
    }
}

impl SelectMode {
    /// The number that stands for this strategy in configuration.
    pub open spec fn spec_code(self) -> u32 {
        match self {
            SelectMode::RandomSelect => 0,
            SelectMode::RoundRobin => 1,
            SelectMode::WeightedRoundRobin => 2,
            SelectMode::WeightedICMP => 3,
            SelectMode::ConsistentHash => 4,
            SelectMode::Closest => 5,
            SelectMode::SelectByUser => 1000,
        }
    }

    /// The number that stands for this strategy in configuration.
    pub fn code(self) -> (c: u32)
        ensures
            c == self.spec_code(),
    {
        match self {
            SelectMode::RandomSelect => 0,
            SelectMode::RoundRobin => 1,
            SelectMode::WeightedRoundRobin => 2,
            SelectMode::WeightedICMP => 3,
            SelectMode::ConsistentHash => 4,
            SelectMode::Closest => 5,
            SelectMode::SelectByUser => 1000,
        }
    }

    /// The strategy that a configuration number stands for, if any.
    pub fn from_code(c: u32) -> (m: Option<SelectMode>)
        ensures
            match m {
                Some(mode) => mode.spec_code() == c,
                None => forall|mode: SelectMode| mode.spec_code() != c,
            },
    {
        if c == 0 {
            Some(SelectMode::RandomSelect)
        } else if c == 1 {
            Some(SelectMode::RoundRobin)
        } else if c == 2 {
            Some(SelectMode::WeightedRoundRobin)
        } else if c == 3 {
            Some(SelectMode::WeightedICMP)
        } else if c == 4 {
            Some(SelectMode::ConsistentHash)
        } else if c == 5 {
            Some(SelectMode::Closest)
        } else if c == 1000 {
            Some(SelectMode::SelectByUser)
        } else {
            None
        }
    }

    /// The name of this strategy.
    pub open spec fn spec_name(self) -> Seq<char> {
        match self {
            SelectMode::RandomSelect => "RandomSelect"@,
            SelectMode::RoundRobin => "RoundRobin"@,
            SelectMode::WeightedRoundRobin => "WeightedRoundRobin"@,
            SelectMode::WeightedICMP => "WeightedICMP"@,
            SelectMode::ConsistentHash => "ConsistentHash"@,
            SelectMode::Closest => "Closest"@,
            SelectMode::SelectByUser => "SelectByUser"@,
        }
    }

    /// The name of this strategy, as it is written in configuration.
    pub fn name(self) -> (s: String)
        ensures
            s@ == self.spec_name(),
    {
        match self {
            SelectMode::RandomSelect => "RandomSelect".to_owned(),
            SelectMode::RoundRobin => "RoundRobin".to_owned(),
            SelectMode::WeightedRoundRobin => "WeightedRoundRobin".to_owned(),
            SelectMode::WeightedICMP => "WeightedICMP".to_owned(),
            SelectMode::ConsistentHash => "ConsistentHash".to_owned(),
            SelectMode::Closest => "Closest".to_owned(),
            SelectMode::SelectByUser => "SelectByUser".to_owned(),
        }
    }

    /// The strategy with the given name: the first, in the order of `all`,
    /// whose name it is; `None` where it is the name of no strategy.
    pub fn from_name(name: &String) -> (m: Option<SelectMode>)
        ensures
            match m {
                Some(mode) => name@ == mode.spec_name(),
                None => forall|mode: SelectMode| name@ != mode.spec_name(),
            },
    {
        let modes = SelectMode::all();
        let mut i: usize = 0;
        while i < modes.len()
            invariant
                i <= modes.len(),
                modes@ == SelectMode::spec_all(),
                forall|j: int| 0 <= j < i ==> name@ != modes@[j].spec_name(),
            decreases modes.len() - i,
        {
            if *name == modes[i].name() {
                return Some(modes[i]);
            }
            i += 1;
        }
        proof {
            assert forall|mode: SelectMode| name@ != mode.spec_name() by {
                let j = mode.spec_code() as int;
                let at = if j == 1000 { 6 } else { j };
                assert(modes@[at] == mode);
            }
        }
        None
    }

    /// Every strategy, in the order of declaration.
    pub open spec fn spec_all() -> Seq<SelectMode> {
        seq![
            SelectMode::RandomSelect,
            SelectMode::RoundRobin,
            SelectMode::WeightedRoundRobin,
            SelectMode::WeightedICMP,
            SelectMode::ConsistentHash,
            SelectMode::Closest,
            SelectMode::SelectByUser,
        ]
    }

    /// Every strategy, in the order of declaration.
    pub fn all() -> (modes: Vec<SelectMode>)
        ensures
            modes@ == SelectMode::spec_all(),
    {
        let mut modes: Vec<SelectMode> = Vec::new();
        modes.push(SelectMode::RandomSelect);
        modes.push(SelectMode::RoundRobin);
        modes.push(SelectMode::WeightedRoundRobin);
        modes.push(SelectMode::WeightedICMP);
        modes.push(SelectMode::ConsistentHash);
        modes.push(SelectMode::Closest);
        modes.push(SelectMode::SelectByUser);
        assert(modes@ =~= SelectMode::spec_all());
        modes
    }
}

/// No two failure modes share a name, so `from_name` gives back the mode
/// whose `name` it is given.
pub proof fn law_fail_mode_names_differ(a: FailMode, b: FailMode)
    requires
        a.spec_name() == b.spec_name(),
    ensures
        a == b,
{
    reveal_strlit("Failover");
    reveal_strlit("Failfast");
    reveal_strlit("Failtry");
    reveal_strlit("Failbackup");
    assert("Failover"@.len() == 8 && "Failover"@[4] == 'o');
    assert("Failfast"@.len() == 8 && "Failfast"@[4] == 'f');
    assert("Failtry"@.len() == 7);
    assert("Failbackup"@.len() == 10);
}

/// No two selection strategies share a name, so `from_name` gives back the
/// strategy whose `name` it is given.
pub proof fn law_select_mode_names_differ(a: SelectMode, b: SelectMode)
    requires
        a.spec_name() == b.spec_name(),
    ensures
        a == b,
{
    reveal_strlit("RandomSelect");
    reveal_strlit("RoundRobin");
    reveal_strlit("WeightedRoundRobin");
    reveal_strlit("WeightedICMP");
    reveal_strlit("ConsistentHash");
    reveal_strlit("Closest");
    reveal_strlit("SelectByUser");
    assert("RandomSelect"@.len() == 12 && "RandomSelect"@[0] == 'R');
    assert("RoundRobin"@.len() == 10);
    assert("WeightedRoundRobin"@.len() == 18);
    assert("WeightedICMP"@.len() == 12 && "WeightedICMP"@[0] == 'W');
    assert("ConsistentHash"@.len() == 14);
    assert("Closest"@.len() == 7);
    assert("SelectByUser"@.len() == 12 && "SelectByUser"@[0] == 'S');
}

} // verus!
