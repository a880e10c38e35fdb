use vstd::prelude::*;
use crate::model::{Address, DataKey, Invocation, ParkingEntry, ParkingError, ParkingOperator};
use crate::pricing::{fee_fits, fee_for_duration, fee_of, lemma_fee_monotone_in_now};
use crate::store::Table;

verus! {

/// What a map holds under `k`, as an option.
pub open spec fn lookup<V>(m: Map<Seq<char>, V>, k: Seq<char>) -> Option<V> {
    if m.contains_key(k) {
        Some(m[k])
    } else {
        None
    }
}

/// Operator records as stored one after the other under their addresses:
/// a later record replaces an earlier one at the same address.
pub open spec fn operator_map(ops: Seq<ParkingOperator>) -> Map<Seq<char>, ParkingOperator>
    decreases ops.len(),
{
    if ops.len() == 0 {
        Map::empty()
    } else {
        operator_map(ops.drop_last()).insert(ops.last().address@, ops.last())
    }
}

/// Sessions as stored one after the other under their plates.
pub open spec fn entry_map(es: Seq<ParkingEntry>) -> Map<Seq<char>, ParkingEntry>
    decreases es.len(),
{
    if es.len() == 0 {
        Map::empty()
    } else {
        entry_map(es.drop_last()).insert(es.last().license_plate@, es.last())
    }
}

/// Every session is consistent and refers to one of the operators.
pub open spec fn restorable(ops: Seq<ParkingOperator>, es: Seq<ParkingEntry>) -> bool {
    forall|i: int|
        0 <= i < es.len() ==> {
            &&& #[trigger] es[i].consistent()
            &&& operator_map(ops).contains_key(es[i].operator_address@)
        }
}

/// The ledger's state: the administrator and the entry counter (instance
/// namespace), the operators keyed by address and the sessions keyed by
/// license plate (persistent namespace).
pub struct ParkingMeterContract {
    admin: Option<Address>,
    entry_count: Option<u32>,
    operators: Table<ParkingOperator>,
    entries: Table<ParkingEntry>,
}

impl ParkingMeterContract {
    pub closed spec fn admin_of(&self) -> Option<Address> {
        self.admin
    }

    /// The stored counter slot, absent until the first session is opened.
    pub closed spec fn count_slot(&self) -> Option<u32> {
        self.entry_count
    }

    pub closed spec fn operators_of(&self) -> Map<Seq<char>, ParkingOperator> {
        self.operators@
    }

    pub closed spec fn entries_of(&self) -> Map<Seq<char>, ParkingEntry> {
        self.entries@
    }

    /// The number of sessions opened so far.
    pub open spec fn total_of(&self) -> nat {
        match self.count_slot() {
            Some(n) => n as nat,
            None => 0,
        }
    }

    pub closed spec fn wf(&self) -> bool {
        &&& self.operators.wf()
        &&& self.entries.wf()
        &&& forall|k: Seq<char>| #[trigger]
            self.operators@.contains_key(k) ==> self.operators@[k].address@ == k
        &&& forall|k: Seq<char>| #[trigger]
            self.entries@.contains_key(k) ==> {
                &&& self.entries@[k].license_plate@ == k
                &&& self.entries@[k].consistent()
                &&& self.operators@.contains_key(self.entries@[k].operator_address@)
            }
    }

    /// An empty ledger: no administrator, no operator, no session.
    pub fn new() -> (r: Self)
        ensures
            r.wf(),
            r.admin_of() is None,
            r.count_slot() is None,
            r.operators_of() == Map::<Seq<char>, ParkingOperator>::empty(),
            r.entries_of() == Map::<Seq<char>, ParkingEntry>::empty(),
    {
        ParkingMeterContract {
            admin: None,
            entry_count: None,
            operators: Table::new(),
            entries: Table::new(),
        }
    }

    /// A ledger holding the given records, or `None` where a session is
    /// inconsistent or refers to an operator that is not among them.
    pub fn restore(
        admin: Option<Address>,
        entry_count: Option<u32>,
        operators: &Vec<ParkingOperator>,
        entries: &Vec<ParkingEntry>,
    ) -> (r: Option<Self>)
        ensures
            r is Some <==> restorable(operators@, entries@),
            r matches Some(c) ==> {
                &&& c.wf()
                &&& c.admin_of() == admin
                &&& c.count_slot() == entry_count
                &&& c.operators_of() == operator_map(operators@)
                &&& c.entries_of() == entry_map(entries@)
            },
    {
        let mut ops: Table<ParkingOperator> = Table::new();
        let mut i: usize = 0;
        while i < operators.len()
            invariant
                i <= operators@.len(),
                ops.wf(),
                ops@ == operator_map(operators@.take(i as int)),
                forall|k: Seq<char>| #[trigger] ops@.contains_key(k) ==> ops@[k].address@ == k,
            decreases operators@.len() - i,
        {
            assert(operators@.take(i + 1).drop_last() == operators@.take(i as int));
            let o = operators[i].clone();
            ops.set(o.address.id.clone(), o);
            i = i + 1;
        }
        assert(operators@.take(i as int) == operators@);
        let mut ens: Table<ParkingEntry> = Table::new();
        let mut j: usize = 0;
        while j < entries.len()
            invariant
                j <= entries@.len(),
                ops.wf(),
                ops@ == operator_map(operators@),
                ens.wf(),
                ens@ == entry_map(entries@.take(j as int)),
                forall|n: int|
                    #![trigger entries@[n]]
                    0 <= n < j ==> {
                        &&& entries@[n].consistent()
                        &&& ops@.contains_key(entries@[n].operator_address@)
                    },
                forall|k: Seq<char>| #[trigger]
                    ens@.contains_key(k) ==> {
                        &&& ens@[k].license_plate@ == k
                        &&& ens@[k].consistent()
                        &&& ops@.contains_key(ens@[k].operator_address@)
                    },
            decreases entries@.len() - j,
        {
            if !entries[j].is_consistent() || !ops.has(&entries[j].operator_address.id) {
                return None;
            }
            assert(entries@.take(j + 1).drop_last() == entries@.take(j as int));
            let e = entries[j].clone();
            ens.set(e.license_plate.clone(), e);
            assert(entries@[j as int].consistent());
            j = j + 1;
        }
        assert(entries@.take(j as int) == entries@);
        Some(ParkingMeterContract { admin, entry_count, operators: ops, entries: ens })
    }

    /// Sets the administrator; `admin` must authorize the call.
    pub fn initialize(&mut self, env: &Invocation, admin: Address) -> (r: Result<(), ParkingError>)
        requires
            old(self).wf(),
        ensures
            final(self).wf(),
            env.approves(admin@) ==> {
                &&& r is Ok
                &&& final(self).admin_of() == Some(admin)
                &&& final(self).count_slot() == old(self).count_slot()
                &&& final(self).operators_of() == old(self).operators_of()
                &&& final(self).entries_of() == old(self).entries_of()
            },
            !env.approves(admin@) ==> r == Err::<(), ParkingError>(ParkingError::AuthorizationDenied)
                && *final(self) == *old(self),
    {
        if !env.authorizes(&admin) {
            return Err(ParkingError::AuthorizationDenied);
        }
        self.admin = Some(admin);
        Ok(())
    }
    /// Why an operation reserved to the administrator is refused, if it is:
    /// no administrator is set, or it did not authorize the call.
    pub open spec fn admin_refusal(&self, env: &Invocation) -> Option<ParkingError> {
        match self.admin_of() {
            None => Some(ParkingError::NotFound),
            Some(a) => if env.approves(a@) {
                None
            } else {
                Some(ParkingError::AuthorizationDenied)
            },
        }
    }

    fn check_admin(&self, env: &Invocation) -> (r: Result<(), ParkingError>)
        ensures
            r == (match self.admin_refusal(env) {
                Some(e) => Err(e),
                None => Ok(()),
            }),
    {
        match &self.admin {
            None => Err(ParkingError::NotFound),
            Some(a) => if env.authorizes(a) {
                Ok(())
            } else {
                Err(ParkingError::AuthorizationDenied)
            },
        }
    }

    /// Registers `operator` as active with the given name and rate,
    /// replacing any record at that address. Reserved to the administrator.
    pub fn register_operator(
        &mut self,
        env: &Invocation,
        operator: Address,
        name: String,
        hourly_rate: i128,
    ) -> (r: Result<bool, ParkingError>)
        requires
            old(self).wf(),
        ensures
            final(self).wf(),
            match old(self).admin_refusal(env) {
                Some(e) => r == Err::<bool, ParkingError>(e) && *final(self) == *old(self),
                None => {
                    &&& r == Ok::<bool, ParkingError>(true)
                    &&& final(self).operators_of() == old(self).operators_of().insert(
                        operator@,
                        (ParkingOperator { address: operator, name, hourly_rate, is_active: true }),
                    )
                    &&& final(self).admin_of() == old(self).admin_of()
                    &&& final(self).count_slot() == old(self).count_slot()
                    &&& final(self).entries_of() == old(self).entries_of()
                },
            },
    {
        match self.check_admin(env) {
            Err(e) => {
                return Err(e);
            },
            Ok(()) => {},
        }
        let key = operator.id.clone();
        let operator_data = ParkingOperator { address: operator, name, hourly_rate, is_active: true };
        self.operators.set(key, operator_data);
        Ok(true)
    }

    /// Marks the operator at `operator_address` active or inactive, keeping
    /// its name and rate. Reserved to the administrator.
    pub fn set_operator_status(
        &mut self,
        env: &Invocation,
        operator_address: Address,
        is_active: bool,
    ) -> (r: Result<bool, ParkingError>)
        requires
            old(self).wf(),
        ensures
            final(self).wf(),
            match old(self).admin_refusal(env) {
                Some(e) => r == Err::<bool, ParkingError>(e) && *final(self) == *old(self),
                None => if !old(self).operators_of().contains_key(operator_address@) {
                    r == Err::<bool, ParkingError>(ParkingError::NotFound) && *final(self) == *old(self)
                } else {
                    let before = old(self).operators_of()[operator_address@];
                    &&& r == Ok::<bool, ParkingError>(true)
                    &&& final(self).operators_of() == old(self).operators_of().insert(
                        operator_address@,
                        (ParkingOperator { is_active, ..before }),
                    )
                    &&& final(self).admin_of() == old(self).admin_of()
                    &&& final(self).count_slot() == old(self).count_slot()
                    &&& final(self).entries_of() == old(self).entries_of()
                },
            },
    {
        match self.check_admin(env) {
            Err(e) => {
                return Err(e);
            },
            Ok(()) => {},
        }
        let mut operator_data = match self.operators.get(&operator_address.id) {
            None => {
                return Err(ParkingError::NotFound);
            },
            Some(o) => o.clone(),
        };
        operator_data.is_active = is_active;
        self.operators.set(operator_address.id, operator_data);
        Ok(true)
    }

    /// Hands the administrator role to `new_admin`. Reserved to the current
    /// administrator.
    pub fn update_admin(&mut self, env: &Invocation, new_admin: Address) -> (r: Result<bool, ParkingError>)
        requires
            old(self).wf(),
        ensures
            final(self).wf(),
            match old(self).admin_refusal(env) {
                Some(e) => r == Err::<bool, ParkingError>(e) && *final(self) == *old(self),
                None => {
                    &&& r == Ok::<bool, ParkingError>(true)
                    &&& final(self).admin_of() == Some(new_admin)
                    &&& final(self).count_slot() == old(self).count_slot()
                    &&& final(self).operators_of() == old(self).operators_of()
                    &&& final(self).entries_of() == old(self).entries_of()
                },
            },
    {
        match self.check_admin(env) {
            Err(e) => {
                return Err(e);
            },
            Ok(()) => {},
        }
        self.admin = Some(new_admin);
        Ok(true)
    }
    /// Why opening a session for `plate` under `operator` is refused, if it
    /// is, in the order the checks are made.
    pub open spec fn entry_refusal(&self, env: &Invocation, operator: Seq<char>, plate: Seq<char>) -> Option<
        ParkingError,
    > {
        if !env.approves(operator) {
            Some(ParkingError::AuthorizationDenied)
        } else if !self.operators_of().contains_key(operator) {
            Some(ParkingError::NotFound)
        } else if !self.operators_of()[operator].is_active {
            Some(ParkingError::OperatorInactive)
        } else if self.entries_of().contains_key(plate) && !self.entries_of()[plate].is_paid {
            Some(ParkingError::SessionAlreadyOpen)
        } else if self.total_of() >= u32::MAX {
            Some(ParkingError::ArithmeticOverflow)
        } else {
            None
        }
    }

    /// `post` is this ledger with an unpaid session for `plate` opened at
    /// `now` under `operator`, and the counter advanced by one.
    pub open spec fn opens_entry(&self, post: Self, now: u64, operator: Address, plate: String) -> bool {
        &&& post.entries_of() == self.entries_of().insert(
            plate@,
            (ParkingEntry {
                license_plate: plate,
                entry_time: now,
                exit_time: None,
                operator_address: operator,
                is_paid: false,
                payment_amount: None,
            }),
        )
        &&& post.count_slot() == Some((self.total_of() + 1) as u32)
        &&& post.admin_of() == self.admin_of()
        &&& post.operators_of() == self.operators_of()
    }

    /// Opens an unpaid session for `license_plate` at the current time under
    /// `operator`, which must authorize the call and be active. A paid
    /// session for the plate is replaced; an unpaid one refuses the call.
    /// Returns the plate.
    pub fn create_entry(&mut self, env: &Invocation, operator: Address, license_plate: String) -> (r:
        Result<String, ParkingError>)
        requires
            old(self).wf(),
        ensures
            final(self).wf(),
            match old(self).entry_refusal(env, operator@, license_plate@) {
                Some(e) => r == Err::<String, ParkingError>(e) && *final(self) == *old(self),
                None => r == Ok::<String, ParkingError>(license_plate) && old(self).opens_entry(
                    *final(self),
                    env.now,
                    operator,
                    license_plate,
                ),
            },
    {
        if !env.authorizes(&operator) {
            return Err(ParkingError::AuthorizationDenied);
        }
        match self.operators.get(&operator.id) {
            None => {
                return Err(ParkingError::NotFound);
            },
            Some(o) => {
                if !o.is_active {
                    return Err(ParkingError::OperatorInactive);
                }
            },
        }
        match self.entries.get(&license_plate) {
            Some(existing_entry) => {
                if !existing_entry.is_paid {
                    return Err(ParkingError::SessionAlreadyOpen);
                }
            },
            None => {},
        }
        let count: u32 = match self.entry_count {
            Some(n) => n,
            None => 0,
        };
        if count == u32::MAX {
            return Err(ParkingError::ArithmeticOverflow);
        }
        let entry = ParkingEntry {
            license_plate: license_plate.clone(),
            entry_time: env.now,
            exit_time: None,
            operator_address: operator,
            is_paid: false,
            payment_amount: None,
        };
        self.entries.set(license_plate.clone(), entry);
        self.entry_count = Some(count + 1);
        Ok(license_plate)
    }

    /// The clock of the invocation has not gone back before the entry of the
    /// session at `plate`, if there is one.
    pub open spec fn clock_after_entry(&self, now: u64, plate: Seq<char>) -> bool {
        self.entries_of().contains_key(plate) ==> self.entries_of()[plate].entry_time <= now
    }

    /// The quote for the session at `plate` at time `now`: the duration in
    /// seconds and the fee at the rate of the session's operator.
    pub open spec fn fee_quote(&self, now: u64, plate: Seq<char>) -> Result<(u64, i128), ParkingError> {
        if !self.entries_of().contains_key(plate) {
            Err(ParkingError::NotFound)
        } else {
            let e = self.entries_of()[plate];
            let d = (now - e.entry_time) as u64;
            let rate = self.operators_of()[e.operator_address@].hourly_rate;
            if !fee_fits(d, rate) {
                Err(ParkingError::ArithmeticOverflow)
            } else {
                Ok((d, fee_of(d, rate) as i128))
            }
        }
    }

    /// The duration of the session at `license_plate` up to now, and the fee
    /// owed for it. Reads the live clock, also for a paid session.
    pub fn calculate_fee(&self, env: &Invocation, license_plate: &String) -> (r: Result<(u64, i128), ParkingError>)
        requires
            self.wf(),
            self.clock_after_entry(env.now, license_plate@),
        ensures
            r == self.fee_quote(env.now, license_plate@),
    {
        let entry = match self.entries.get(license_plate) {
            None => {
                return Err(ParkingError::NotFound);
            },
            Some(e) => e,
        };
        let duration_seconds: u64 = env.now - entry.entry_time;
        let operator_data = match self.operators.get(&entry.operator_address.id) {
            None => {
                return Err(ParkingError::NotFound);
            },
            Some(o) => o,
        };
        match fee_for_duration(duration_seconds, operator_data.hourly_rate) {
            None => Err(ParkingError::ArithmeticOverflow),
            Some(fee) => Ok((duration_seconds, fee)),
        }
    }

    /// Why settling the session at `plate` with `amount` at time `now` is
    /// refused, if it is.
    pub open spec fn payment_refusal(&self, now: u64, plate: Seq<char>, amount: i128) -> Option<ParkingError> {
        if !self.entries_of().contains_key(plate) {
            Some(ParkingError::NotFound)
        } else if self.entries_of()[plate].is_paid {
            Some(ParkingError::AlreadyPaid)
        } else {
            match self.fee_quote(now, plate) {
                Err(e) => Some(e),
                Ok((_, fee)) => if amount < fee {
                    Some(ParkingError::InsufficientPayment)
                } else {
                    None
                },
            }
        }
    }

    /// `post` is this ledger with the session at `plate` marked paid with
    /// `amount`, leaving at `now`; everything else is kept.
    pub open spec fn settles_entry(&self, post: Self, now: u64, plate: Seq<char>, amount: i128) -> bool {
        &&& post.entries_of() == self.entries_of().insert(
            plate,
            (ParkingEntry {
                is_paid: true,
                exit_time: Some(now),
                payment_amount: Some(amount),
                ..self.entries_of()[plate]
            }),
        )
        &&& post.admin_of() == self.admin_of()
        &&& post.count_slot() == self.count_slot()
        &&& post.operators_of() == self.operators_of()
    }

    /// Settles the unpaid session at `license_plate` with `payment_amount`,
    /// which must cover the fee owed now: the session becomes paid, with
    /// the current time as exit time and the amount recorded.
    pub fn complete_payment(&mut self, env: &Invocation, license_plate: &String, payment_amount: i128) -> (r:
        Result<bool, ParkingError>)
        requires
            old(self).wf(),
            old(self).clock_after_entry(env.now, license_plate@),
        ensures
            final(self).wf(),
            match old(self).payment_refusal(env.now, license_plate@, payment_amount) {
                Some(e) => r == Err::<bool, ParkingError>(e) && *final(self) == *old(self),
                None => r == Ok::<bool, ParkingError>(true) && old(self).settles_entry(
                    *final(self),
                    env.now,
                    license_plate@,
                    payment_amount,
                ),
            },
    {
        let mut entry = match self.entries.get(license_plate) {
            None => {
                return Err(ParkingError::NotFound);
            },
            Some(e) => e.clone(),
        };
        if entry.is_paid {
            return Err(ParkingError::AlreadyPaid);
        }
        let calculated_fee = match self.calculate_fee(env, license_plate) {
            Err(e) => {
                return Err(e);
            },
            Ok((_, fee)) => fee,
        };
        if payment_amount < calculated_fee {
            return Err(ParkingError::InsufficientPayment);
        }
        entry.is_paid = true;
        entry.exit_time = Some(env.now);
        entry.payment_amount = Some(payment_amount);
        self.entries.set(license_plate.clone(), entry);
        Ok(true)
    }

    /// The session stored for `license_plate`, if any.
    pub fn get_entry(&self, license_plate: &String) -> (r: Option<ParkingEntry>)
        requires
            self.wf(),
        ensures
            r == lookup(self.entries_of(), license_plate@),
    {
        match self.entries.get(license_plate) {
            None => None,
            Some(e) => Some(e.clone()),
        }
    }

    /// The operator registered at `operator_address`, if any.
    pub fn get_operator(&self, operator_address: &Address) -> (r: Option<ParkingOperator>)
        requires
            self.wf(),
        ensures
            r == lookup(self.operators_of(), operator_address@),
    {
        match self.operators.get(&operator_address.id) {
            None => None,
            Some(o) => Some(o.clone()),
        }
    }

    /// The number of sessions opened so far; 0 before the first.
    pub fn get_total_entries(&self) -> (r: u32)
        ensures
            r == self.total_of(),
    {
        match self.entry_count {
            Some(n) => n,
            None => 0,
        }
    }

    /// Whether the store holds a value under `key`.
    pub fn has(&self, key: &DataKey) -> (r: bool)
        requires
            self.wf(),
        ensures
            r == (match key {
                DataKey::Entry(plate) => self.entries_of().contains_key(plate@),
                DataKey::Operator(a) => self.operators_of().contains_key(a@),
                DataKey::EntryCount => self.count_slot() is Some,
                DataKey::Admin => self.admin_of() is Some,
            }),
    {
        match key {
            DataKey::Entry(plate) => self.entries.has(plate),
            DataKey::Operator(a) => self.operators.has(&a.id),
            DataKey::EntryCount => self.entry_count.is_some(),
            DataKey::Admin => self.admin.is_some(),
        }
    }
}

/// For a stored session whose operator's rate is not negative, the quoted
/// fee never decreases as the clock advances.
pub proof fn lemma_quote_monotone_in_now(s: ParkingMeterContract, plate: Seq<char>, now1: u64, now2: u64)
    requires
        s.wf(),
        s.entries_of().contains_key(plate),
        s.entries_of()[plate].entry_time <= now1 <= now2,
        s.operators_of()[s.entries_of()[plate].operator_address@].hourly_rate >= 0,
        s.fee_quote(now1, plate) is Ok,
        s.fee_quote(now2, plate) is Ok,
    ensures
        s.fee_quote(now1, plate).unwrap().1 <= s.fee_quote(now2, plate).unwrap().1,
{
    let e = s.entries_of()[plate];
    let rate = s.operators_of()[e.operator_address@].hourly_rate;
    lemma_fee_monotone_in_now(e.entry_time, now1, now2, rate);
}

/// After a successful opening of a session for `plate` at time `now`, the
/// session read back for the plate entered at `now`, is unpaid and has
/// neither exit time nor payment; the entry counter grew by exactly one.
pub proof fn lemma_opened_session_reads_back(
    pre: ParkingMeterContract,
    post: ParkingMeterContract,
    env: Invocation,
    operator: Address,
    plate: String,
)
    requires
        pre.entry_refusal(&env, operator@, plate@) is None,
        pre.opens_entry(post, env.now, operator, plate),
    ensures
        lookup(post.entries_of(), plate@) matches Some(e) && e.entry_time == env.now && !e.is_paid
            && e.exit_time is None && e.payment_amount is None && e.operator_address == operator,
        post.total_of() == pre.total_of() + 1,
{
}

/// After a successful payment of `amount` for `plate` at time `now`, the
/// session read back for the plate is paid, left at `now` and records
/// `amount`, which covers the fee owed at `now`.
pub proof fn lemma_settled_session_reads_back(
    pre: ParkingMeterContract,
    post: ParkingMeterContract,
    now: u64,
    plate: Seq<char>,
    amount: i128,
)
    requires
        pre.payment_refusal(now, plate, amount) is None,
        pre.settles_entry(post, now, plate, amount),
    ensures
        lookup(post.entries_of(), plate) matches Some(e) && e.is_paid && e.exit_time == Some(now)
            && e.payment_amount == Some(amount),
        pre.fee_quote(now, plate) matches Ok((_, fee)) && amount >= fee,
        post.total_of() == pre.total_of(),
{
}

} // verus!
