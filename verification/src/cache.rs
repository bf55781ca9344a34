use vstd::prelude::*;

verus! {

/// The largest value `Duration::as_nanos` can return: a `Duration` holds a `u64`
/// count of seconds and fewer than a billion nanoseconds.
pub const MAX_CLOCK_NANOS: u128 = 18_446_744_073_709_551_615_999_999_999u128;

/// Nanoseconds in one minute.
pub const NANOS_PER_MINUTE: u128 = 60_000_000_000u128;

#[verifier::external_type_specification]
#[verifier::external_body]
pub struct ExSystemTime(std::time::SystemTime);

/// Calls `std::time::SystemTime::now`. The reading depends on the clock, so
/// nothing is claimed of it.
#[verifier::external_body]
fn system_now() -> std::time::SystemTime {
    std::time::SystemTime::now()
}

#[verifier::external_type_specification]
#[verifier::external_body]
pub struct ExSystemTimeError(std::time::SystemTimeError);

/// Calls `SystemTime::duration_since(UNIX_EPOCH)`: how long after the Unix
/// epoch `t` lies, or an error when it lies before the epoch. Which of the two
/// comes back depends on the clock, so nothing is claimed of it.
#[verifier::external_body]
fn since_epoch(t: &std::time::SystemTime) -> Result<std::time::Duration, std::time::SystemTimeError> {
    t.duration_since(std::time::UNIX_EPOCH)
}

/// Calls `SystemTimeError::duration`: how far the later time lay past the
/// earlier one. It depends on the clock, so nothing is claimed of it.
#[verifier::external_body]
fn error_duration(e: &std::time::SystemTimeError) -> std::time::Duration {
    e.duration()
}

/// Calls `Duration::as_nanos`. The claim is only its range: a `Duration` holds
/// at most `u64::MAX` seconds and fewer than a billion nanoseconds.
#[verifier::external_body]
fn duration_nanos(d: &std::time::Duration) -> (n: u128)
    ensures
        n <= MAX_CLOCK_NANOS,
{
    d.as_nanos()
}

/// The current time in nanoseconds from the Unix epoch (negative before it).
pub(crate) fn clock_nanos() -> (n: i128)
    ensures
        -MAX_CLOCK_NANOS <= n <= MAX_CLOCK_NANOS,
{
    let t = system_now();
    match since_epoch(&t) {
        Ok(d) => {
            let n = duration_nanos(&d);
            n as i128
        },
        Err(e) => {
            let back = error_duration(&e);
            let n = duration_nanos(&back);
            -(n as i128)
        },
    }
}

/// A list of items together with the time at which it was filled and how long
/// it stays fresh.
///
/// `length` is the count of items the cache believes it holds; it is kept equal
/// to the number of items by every method except `get_mut_data_pointer`, after
/// which `set_length` brings the two back together.
pub struct Cache<T> {
    data: Vec<T>,
    length: usize,
    pub last_offset: usize,
    /// When the cache was (re)filled, in nanoseconds from the Unix epoch
    /// (negative before it).
    birth: i128,
    /// How long the contents stay fresh, in nanoseconds.
    age_limit: u128,
}

impl<T> Cache<T> {
    /// The items held.
    pub closed spec fn items(&self) -> Seq<T> {
        self.data@
    }

    /// The value of the public `last_offset` field.
    pub closed spec fn offset(&self) -> usize {
        self.last_offset
    }

    /// The item count the cache records.
    pub closed spec fn recorded_length(&self) -> nat {
        self.length as nat
    }

    /// When the cache was last filled (nanoseconds since the Unix epoch).
    pub closed spec fn birth_nanos(&self) -> int {
        self.birth as int
    }

    /// How long the cache stays fresh (nanoseconds).
    pub closed spec fn age_limit_nanos(&self) -> nat {
        self.age_limit as nat
    }

    /// The recorded count matches the items held.
    pub open spec fn well_formed(&self) -> bool {
        self.recorded_length() == self.items().len()
    }

    /// The cache is outdated at time `now` once its age limit has run out.
    pub open spec fn outdated_at(&self, now: int) -> bool {
        self.birth_nanos() + self.age_limit_nanos() <= now
    }

    /// An empty cache, born now, that stays fresh for the given number of minutes.
    pub fn new(age_limit_in_minutes: u64) -> (c: Self)
        requires
            age_limit_in_minutes * 60 <= u64::MAX,
        ensures
            c.items() == Seq::<T>::empty(),
            c.recorded_length() == 0,
            c.offset() == 0,
            c.age_limit_nanos() == age_limit_in_minutes * NANOS_PER_MINUTE,
            -MAX_CLOCK_NANOS <= c.birth_nanos() <= MAX_CLOCK_NANOS,
            c.well_formed(),
    {
        let secs: u64 = age_limit_in_minutes * 60;
        let limit: u128 = (secs as u128) * 1_000_000_000u128;
        Cache { data: Vec::new(), length: 0, last_offset: 0, birth: clock_nanos(), age_limit: limit }
    }

    /// Appends an item.
    pub fn add(&mut self, data: T)
        requires
            old(self).recorded_length() < usize::MAX,
        ensures
            final(self).items() == old(self).items().push(data),
            final(self).recorded_length() == old(self).recorded_length() + 1,
            final(self).offset() == old(self).offset(),
            final(self).birth_nanos() == old(self).birth_nanos(),
            final(self).age_limit_nanos() == old(self).age_limit_nanos(),
    {
        self.data.push(data);
        self.length = self.length + 1;
    }

    /// The item at `index`.
    pub fn get(&self, index: usize) -> (r: &T)
        requires
            index < self.items().len(),
        ensures
            *r == self.items()[index as int],
    {
        &self.data[index]
    }

    /// The recorded item count.
    pub fn length(&self) -> (n: usize)
        ensures
            n == self.recorded_length(),
    {
        self.length
    }

    /// Drops the last `length` items (all of them when the cache is well formed)
    /// and records a count of zero.
    pub fn clear(&mut self)
        ensures
            final(self).items() == old(self).items().take(
                if old(self).recorded_length() <= old(self).items().len() {
                    old(self).items().len() - old(self).recorded_length()
                } else {
                    0
                },
            ),
            final(self).recorded_length() == 0,
            old(self).well_formed() ==> final(self).items().len() == 0,
            final(self).offset() == old(self).offset(),
            final(self).birth_nanos() == old(self).birth_nanos(),
            final(self).age_limit_nanos() == old(self).age_limit_nanos(),
    {
        let n = self.length;
        let ghost start = self.data@;
        for i in 0..n
            invariant
                self.data@ == start.take(
                    if i <= start.len() {
                        start.len() - i
                    } else {
                        0
                    },
                ),
                self.length == old(self).length,
                self.last_offset == old(self).last_offset,
                self.birth == old(self).birth,
                self.age_limit == old(self).age_limit,
                start == old(self).data@,
                n == old(self).length,
        {
            self.data.pop();
        }
        self.length = 0;
    }

    /// Replaces the items with `data` and restarts the age clock.
    pub fn set(&mut self, data: Vec<T>)
        ensures
            final(self).items() == data@,
            final(self).recorded_length() == data@.len(),
            final(self).well_formed(),
            -MAX_CLOCK_NANOS <= final(self).birth_nanos() <= MAX_CLOCK_NANOS,
            final(self).offset() == old(self).offset(),
            final(self).age_limit_nanos() == old(self).age_limit_nanos(),
    {
        self.clear();
        self.data = data;
        self.length = self.data.len();
        self.birth = clock_nanos();
    }

    /// The items, borrowed.
    pub fn get_data_pointer(&self) -> (r: &Vec<T>)
        ensures
            r@ == self.items(),
    {
        &self.data
    }

    /// The items, borrowed for change; the recorded count is left as it was
    /// (see `set_length`).
    pub fn get_mut_data_pointer(&mut self) -> (r: &mut Vec<T>)
        ensures
            r@ == old(self).items(),
            final(self).items() == final(r)@,
            final(self).recorded_length() == old(self).recorded_length(),
            final(self).offset() == old(self).offset(),
            final(self).birth_nanos() == old(self).birth_nanos(),
            final(self).age_limit_nanos() == old(self).age_limit_nanos(),
    {
        &mut self.data
    }

    /// Records the number of items actually held.
    pub fn set_length(&mut self)
        ensures
            final(self).items() == old(self).items(),
            final(self).recorded_length() == old(self).items().len(),
            final(self).well_formed(),
            final(self).offset() == old(self).offset(),
            final(self).birth_nanos() == old(self).birth_nanos(),
            final(self).age_limit_nanos() == old(self).age_limit_nanos(),
    {
        self.length = self.data.len();
    }

    /// Whether the age limit has run out at time `now` (nanoseconds since the
    /// Unix epoch).
    pub fn is_outdated_at(&self, now: i128) -> (r: bool)
        ensures
            r == self.outdated_at(now as int),
    {
        if now < self.birth {
            return false;
        }
        let gap: u128 = if self.birth >= 0 || now < 0 {
            (now - self.birth) as u128
        } else {
            (now as u128) + ((-(self.birth + 1)) as u128) + 1
        };
        gap >= self.age_limit
    }

    /// Whether the age limit has run out, judged by the system clock.
    pub fn is_outdated(&self) -> (r: bool)
        ensures
            exists|now: int| -MAX_CLOCK_NANOS <= now <= MAX_CLOCK_NANOS && r == #[trigger] self.outdated_at(now),
    {
        let now = clock_nanos();
        self.is_outdated_at(now)
    }

    /// Whether the cache has to be filled again before use: it is empty, or
    /// its age limit has run out at `now`.
    pub fn needs_refresh_at(&self, now: i128) -> (r: bool)
        ensures
            r == (self.recorded_length() < 1 || self.outdated_at(now as int)),
    {
        self.length < 1 || self.is_outdated_at(now)
    }

    /// Whether the cache has to be filled again, judged by the system clock.
    pub fn needs_refresh(&self) -> (r: bool)
        ensures
            self.recorded_length() < 1 ==> r,
            self.recorded_length() >= 1 ==> exists|now: int|
                -MAX_CLOCK_NANOS <= now <= MAX_CLOCK_NANOS && r == #[trigger] self.outdated_at(now),
    {
        if self.length < 1 {
            true
        } else {
            self.is_outdated()
        }
    }
}

/// Once a cache is outdated it stays outdated as time goes on.
pub proof fn law_outdated_stays_outdated<T>(c: &Cache<T>, earlier: int, later: int)
    requires
        earlier <= later,
        c.outdated_at(earlier),
    ensures
        c.outdated_at(later),
{
}

/// A cache with a positive age limit is fresh at the moment it was filled, and
/// stays fresh until exactly its age limit has passed.
pub proof fn law_fresh_until_limit<T>(c: &Cache<T>, now: int)
    requires
        c.birth_nanos() <= now,
    ensures
        c.outdated_at(now) <==> now - c.birth_nanos() >= c.age_limit_nanos(),
        c.age_limit_nanos() > 0 ==> !c.outdated_at(c.birth_nanos()),
{
}

} // verus!
