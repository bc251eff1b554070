//! The column families of the store.

use crate::text::same_text;
use vstd::prelude::*;

verus! {

/// A column family of the database.
#[derive(Debug, Clone, Copy, PartialEq, Eq, Structural)]
pub enum ColumnFamily {
    /// The family that every database has.
    Default,
    Blocks,
    Ledgers,
    Canonicity,
    Tx,
    StakingLedgers,
}

/// The name under which the database knows a column family.
pub open spec fn family_name(family: ColumnFamily) -> Seq<char> {
    match family {
        ColumnFamily::Default => "default"@,
        ColumnFamily::Blocks => "blocks"@,
        ColumnFamily::Ledgers => "ledgers"@,
        ColumnFamily::Canonicity => "canonicity"@,
        ColumnFamily::Tx => "tx"@,
        ColumnFamily::StakingLedgers => "staking-ledgers"@,
    }
}

impl ColumnFamily {
    /// The name under which the database knows this column family.
    pub fn name(self) -> (name: &'static str)
        ensures
            name@ == family_name(self),
            name@ == match self {
                ColumnFamily::Default => "default"@,
                ColumnFamily::Blocks => "blocks"@,
                ColumnFamily::Ledgers => "ledgers"@,
                ColumnFamily::Canonicity => "canonicity"@,
                ColumnFamily::Tx => "tx"@,
                ColumnFamily::StakingLedgers => "staking-ledgers"@,
            },
    {
        match self {
            ColumnFamily::Default => "default",
            ColumnFamily::Blocks => "blocks",
            ColumnFamily::Ledgers => "ledgers",
            ColumnFamily::Canonicity => "canonicity",
            ColumnFamily::Tx => "tx",
            ColumnFamily::StakingLedgers => "staking-ledgers",
        }
    }

    /// The column family of a name.
    pub fn from_name(name: &str) -> (family: Option<ColumnFamily>)
        ensures
            match family {
                Some(family) => family_name(family) == name@,
                None => forall|family: ColumnFamily| #[trigger] family_name(family) != name@,
            },
            family == Some(ColumnFamily::Default) <==> name@ == "default"@,
            family == Some(ColumnFamily::Blocks) <==> name@ == "blocks"@,
            family == Some(ColumnFamily::Ledgers) <==> name@ == "ledgers"@,
            family == Some(ColumnFamily::Canonicity) <==> name@ == "canonicity"@,
            family == Some(ColumnFamily::Tx) <==> name@ == "tx"@,
            family == Some(ColumnFamily::StakingLedgers) <==> name@ == "staking-ledgers"@,
    {
        proof {
            lemma_names_differ();
        }
        if same_text(name, "default") {
            Some(ColumnFamily::Default)
        } else if same_text(name, "blocks") {
            Some(ColumnFamily::Blocks)
        } else if same_text(name, "ledgers") {
            Some(ColumnFamily::Ledgers)
        } else if same_text(name, "canonicity") {
            Some(ColumnFamily::Canonicity)
        } else if same_text(name, "tx") {
            Some(ColumnFamily::Tx)
        } else if same_text(name, "staking-ledgers") {
            Some(ColumnFamily::StakingLedgers)
        } else {
            None
        }
    }
}

/// The names of the column families are no two alike.
proof fn lemma_names_differ()
    ensures
        "default"@.len() == 7 && "default"@[0] == 'd',
        "blocks"@.len() == 6,
        "ledgers"@.len() == 7 && "ledgers"@[0] == 'l',
        "canonicity"@.len() == 10,
        "tx"@.len() == 2,
        "staking-ledgers"@.len() == 15,
{
    reveal_strlit("default");
    reveal_strlit("blocks");
    reveal_strlit("ledgers");
    reveal_strlit("canonicity");
    reveal_strlit("tx");
    reveal_strlit("staking-ledgers");
}

/// Different column families have different names.
pub proof fn law_family_names_differ(a: ColumnFamily, b: ColumnFamily)
    requires
        family_name(a) == family_name(b),
    ensures
        a == b,
{
    lemma_names_differ();
}

/// Under each of the database's names lies one column family, and every column family lies under
/// one of them: a name belongs to a family exactly where it is the name that databases on disk
/// have it under.
pub proof fn law_family_of_each_name(family: ColumnFamily, name: Seq<char>)
    ensures
        family_name(family) == name <==> {
            ||| name == "default"@ && family == ColumnFamily::Default
            ||| name == "blocks"@ && family == ColumnFamily::Blocks
            ||| name == "ledgers"@ && family == ColumnFamily::Ledgers
            ||| name == "canonicity"@ && family == ColumnFamily::Canonicity
            ||| name == "tx"@ && family == ColumnFamily::Tx
            ||| name == "staking-ledgers"@ && family == ColumnFamily::StakingLedgers
        },
{
    lemma_names_differ();
}

} // verus!
