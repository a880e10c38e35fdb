use vstd::prelude::*;

verus! {

/// An opaque principal able to authorize calls, identified by its string
/// form.
#[derive(Debug)]
pub struct Address {
    pub id: String,
}

impl View for Address {
    type V = Seq<char>;

    open spec fn view(&self) -> Seq<char> {
        self.id@
    }
}

impl Address {
    pub fn new(id: String) -> (r: Address)
        ensures
            r.id == id,
    {
        Address { id }
    }
}

impl Clone for Address {
    fn clone(&self) -> (r: Self)
        ensures
            r == *self,
    {
        Address { id: self.id.clone() }
    }
}

impl PartialEq for Address {
    fn eq(&self, o: &Address) -> (r: bool) {
        self.id == o.id
    }
}

impl vstd::std_specs::cmp::PartialEqSpecImpl for Address {
    open spec fn obeys_eq_spec() -> bool {
        true
    }

    open spec fn eq_spec(&self, o: &Address) -> bool {
        self.id@ == o.id@
    }
}

impl Eq for Address {}

/// A parking operator, registered by the administrator.
#[derive(Debug)]
pub struct ParkingOperator {
    pub address: Address,
    pub name: String,
    /// Stroops per hour.
    pub hourly_rate: i128,
    pub is_active: bool,
}

impl Clone for ParkingOperator {
    fn clone(&self) -> (r: Self)
        ensures
            r == *self,
    {
        ParkingOperator {
            address: self.address.clone(),
            name: self.name.clone(),
            hourly_rate: self.hourly_rate,
            is_active: self.is_active,
        }
    }
}

/// One parking session of a vehicle, from entry until payment.
#[derive(Debug)]
pub struct ParkingEntry {
    pub license_plate: String,
    /// Unix seconds.
    pub entry_time: u64,
    pub exit_time: Option<u64>,
    pub operator_address: Address,
    pub is_paid: bool,
    /// Stroops.
    pub payment_amount: Option<i128>,
}

impl ParkingEntry {
    /// Exit time and payment are recorded exactly when the session is paid,
    /// and the exit is not before the entry.
    pub open spec fn consistent(&self) -> bool {
        &&& (self.exit_time is Some <==> self.is_paid)
        &&& (self.payment_amount is Some <==> self.is_paid)
        &&& (self.exit_time matches Some(t) ==> t >= self.entry_time)
    }
}

impl ParkingEntry {
    /// Whether the record is consistent, as `consistent` states.
    pub fn is_consistent(&self) -> (r: bool)
        ensures
            r == self.consistent(),
    {
        let exit_ok = match self.exit_time {
            Some(t) => self.is_paid && t >= self.entry_time,
            None => !self.is_paid,
        };
        exit_ok && (self.payment_amount.is_some() == self.is_paid)
    }
}

impl Clone for ParkingEntry {
    fn clone(&self) -> (r: Self)
        ensures
            r == *self,
    {
        ParkingEntry {
            license_plate: self.license_plate.clone(),
            entry_time: self.entry_time,
            exit_time: self.exit_time,
            operator_address: self.operator_address.clone(),
            is_paid: self.is_paid,
            payment_amount: self.payment_amount,
        }
    }
}

/// The keys of the ledger's store: `Admin` and `EntryCount` live in the
/// instance namespace, operators and sessions in the persistent one.
#[derive(Debug)]
pub enum DataKey {
    Entry(String),
    Operator(Address),
    EntryCount,
    Admin,
}

/// Why an operation was refused. A refused operation changes nothing.
#[derive(Debug, Clone, Copy, PartialEq, Eq, Structural)]
pub enum ParkingError {
    /// The principal that the operation needs did not authorize the call.
    AuthorizationDenied,
    /// The administrator, operator or session referred to is not stored.
    NotFound,
    OperatorInactive,
    SessionAlreadyOpen,
    AlreadyPaid,
    InsufficientPayment,
    /// A fee or the entry counter does not fit its integer type.
    ArithmeticOverflow,
}

pub open spec fn error_text(e: ParkingError) -> Seq<char> {
    match e {
        ParkingError::AuthorizationDenied => "Authorization denied"@,
        ParkingError::NotFound => "Record not found"@,
        ParkingError::OperatorInactive => "Operator is not active"@,
        ParkingError::SessionAlreadyOpen => "Vehicle already has an active parking session"@,
        ParkingError::AlreadyPaid => "Payment already completed"@,
        ParkingError::InsufficientPayment => "Insufficient payment amount"@,
        ParkingError::ArithmeticOverflow => "Arithmetic overflow"@,
    }
}

impl ParkingError {
    /// The stable message of the error.
    pub fn message(&self) -> (r: &'static str)
        ensures
            r@ == error_text(*self),
    {
        match self {
            ParkingError::AuthorizationDenied => "Authorization denied",
            ParkingError::NotFound => "Record not found",
            ParkingError::OperatorInactive => "Operator is not active",
            ParkingError::SessionAlreadyOpen => "Vehicle already has an active parking session",
            ParkingError::AlreadyPaid => "Payment already completed",
            ParkingError::InsufficientPayment => "Insufficient payment amount",
            ParkingError::ArithmeticOverflow => "Arithmetic overflow",
        }
    }
}

/// What the host supplies to one invocation: the clock reading and the set
/// of principals that authorized the call.
pub struct Invocation {
    /// Unix seconds.
    pub now: u64,
    pub authorized: Vec<Address>,
}

impl Invocation {
    pub open spec fn approves(&self, p: Seq<char>) -> bool {
        exists|i: int| 0 <= i < self.authorized@.len() && #[trigger] self.authorized@[i]@ == p
    }

    /// Whether `p` authorized this invocation.
    pub fn authorizes(&self, p: &Address) -> (r: bool)
        ensures
            r == self.approves(p@),
    {
        let mut i: usize = 0;
        while i < self.authorized.len()
            invariant
                i <= self.authorized@.len(),
                forall|j: int| 0 <= j < i ==> self.authorized@[j]@ != p@,
            decreases self.authorized@.len() - i,
        {
            if self.authorized[i] == *p {
                assert(self.authorized@[i as int]@ == p@);
                return true;
            }
            i = i + 1;
        }
        false
    }
}

} // verus!
