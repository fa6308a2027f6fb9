//! The add-task form: two editable text fields, a cursor, and the
//! validation rule applied on submit.

use vstd::prelude::*;

verus! {

/// Which of the two form fields is active.
#[derive(Debug, Clone, Copy, PartialEq, Eq, Structural)]
pub enum FormField {
    Name,
    DueDate,
}

/// The editable buffer for creating a new task. The cursor always lies
/// within the active field's text (see [`FormState::wf`]).
#[derive(Debug, Clone)]
pub struct FormState {
    pub name: Vec<char>,
    pub due_date: Vec<char>,
    pub cursor_position: usize,
    pub active_field: FormField,
}

/// Mathematical image of a form: the two texts, the cursor, the active field.
#[verifier::ext_equal]
pub struct FormAbs {
    pub name: Seq<char>,
    pub due_date: Seq<char>,
    pub cursor: nat,
    pub active: FormField,
}

/// The image of a freshly created form: both fields empty, cursor at the
/// start, name field active.
pub open spec fn form_init() -> FormAbs {
    FormAbs { name: Seq::empty(), due_date: Seq::empty(), cursor: 0, active: FormField::Name }
}

/// The text of the active field.
pub open spec fn active_text(f: FormAbs) -> Seq<char> {
    match f.active {
        FormField::Name => f.name,
        FormField::DueDate => f.due_date,
    }
}

/// Form invariant: the cursor lies within the active field's text.
pub open spec fn form_wf(f: FormAbs) -> bool {
    f.cursor <= active_text(f).len()
}

/// Inserting a character at the cursor of the active field.
pub open spec fn spec_insert_char(f: FormAbs, c: char) -> FormAbs {
    match f.active {
        FormField::Name => FormAbs {
            name: f.name.insert(f.cursor as int, c),
            cursor: f.cursor + 1,
            ..f
        },
        FormField::DueDate => FormAbs {
            due_date: f.due_date.insert(f.cursor as int, c),
            cursor: f.cursor + 1,
            ..f
        },
    }
}

/// Deleting the character before the cursor; a no-op at the start.
pub open spec fn spec_delete_char(f: FormAbs) -> FormAbs {
    if f.cursor == 0 {
        f
    } else {
        match f.active {
            FormField::Name => FormAbs {
                name: f.name.remove(f.cursor - 1),
                cursor: (f.cursor - 1) as nat,
                ..f
            },
            FormField::DueDate => FormAbs {
                due_date: f.due_date.remove(f.cursor - 1),
                cursor: (f.cursor - 1) as nat,
                ..f
            },
        }
    }
}

/// Switching to the other field, with the cursor at the end of its text.
pub open spec fn spec_next_field(f: FormAbs) -> FormAbs {
    match f.active {
        FormField::Name => FormAbs { active: FormField::DueDate, cursor: f.due_date.len(), ..f },
        FormField::DueDate => FormAbs { active: FormField::Name, cursor: f.name.len(), ..f },
    }
}

/// A form is valid when the name is non-empty and the due date, if entered,
/// is a well-formed date.
pub open spec fn form_valid(f: FormAbs) -> bool {
    f.name.len() > 0 && (f.due_date.len() == 0 || is_valid_date_text(f.due_date))
}

/// Law of form validity: an empty name invalidates the form whatever the
/// due date holds; with a non-empty name and no due date entered, the form
/// is valid.
pub proof fn lemma_form_validity(f: FormAbs)
    ensures
        f.name.len() == 0 ==> !form_valid(f),
        f.name.len() > 0 && f.due_date.len() == 0 ==> form_valid(f),
{
}

/// Law of field cycling: the two fields form a strict two-element cycle.
/// From the name field, one step reaches the due-date field with the cursor
/// at the end of its text; a second step returns to the name field with the
/// cursor at the end of its text. Neither text is touched.
pub proof fn lemma_field_cycle(f: FormAbs)
    requires
        f.active == FormField::Name,
    ensures
        spec_next_field(f).active == FormField::DueDate,
        spec_next_field(f).cursor == f.due_date.len(),
        spec_next_field(f).name == f.name,
        spec_next_field(f).due_date == f.due_date,
        spec_next_field(spec_next_field(f)).active == FormField::Name,
        spec_next_field(spec_next_field(f)).cursor == f.name.len(),
        spec_next_field(spec_next_field(f)).name == f.name,
        spec_next_field(spec_next_field(f)).due_date == f.due_date,
{
}

// ---------------------------------------------------------------------------
// Due-date validation: the text must split on '-' into exactly three numeric
// components, with the month in [1, 12] and the day in [1, 31].
// ---------------------------------------------------------------------------

/// A decimal digit.
pub open spec fn is_digit_char(c: char) -> bool {
    48 <= c as u32 && c as u32 <= 57
}

/// The value of one decimal digit.
pub open spec fn digit_val(c: char) -> nat {
    (c as u32 - 48) as nat
}

/// Every character of the text is a decimal digit.
pub open spec fn all_digits(s: Seq<char>) -> bool {
    forall|k: int| 0 <= k < s.len() ==> is_digit_char(s[k])
}

/// A numeric component: non-empty and made of digits only.
pub open spec fn numeric(s: Seq<char>) -> bool {
    s.len() > 0 && all_digits(s)
}

/// The decimal value of a digit string.
pub open spec fn digits_val(s: Seq<char>) -> nat
    decreases s.len(),
{
    if s.len() == 0 {
        0
    } else {
        10 * digits_val(s.drop_last()) + digit_val(s.last())
    }
}

/// A year component: numeric, and small enough for a 32-bit signed integer.
pub open spec fn valid_year(s: Seq<char>) -> bool {
    numeric(s) && digits_val(s) <= i32::MAX as nat
}

/// A month component: numeric with value in [1, 12].
pub open spec fn valid_month(s: Seq<char>) -> bool {
    numeric(s) && 1 <= digits_val(s) <= 12
}

/// A day component: numeric with value in [1, 31].
pub open spec fn valid_day(s: Seq<char>) -> bool {
    numeric(s) && 1 <= digits_val(s) <= 31
}

/// The text, cut at dash positions `i` and `j`, yields a valid
/// year-month-day split. Numeric components contain no dash, so at most one
/// pair of positions can satisfy this.
pub open spec fn date_split_at(s: Seq<char>, i: int, j: int) -> bool {
    &&& 0 <= i < j < s.len()
    &&& s[i] == '-'
    &&& s[j] == '-'
    &&& valid_year(s.subrange(0, i))
    &&& valid_month(s.subrange(i + 1, j))
    &&& valid_day(s.subrange(j + 1, s.len() as int))
}

/// A well-formed due date: some pair of dashes splits it into a valid
/// year, month and day.
pub open spec fn is_valid_date_text(s: Seq<char>) -> bool {
    exists|i: int, j: int| date_split_at(s, i, j)
}

/// Reading a numeric component stops caring about the exact value once it
/// can no longer influence any range check; values at or above this cap are
/// all reported as the cap itself.
pub const NUMBER_CAP: u64 = 10_000_000_000;

/// The decimal value of a digit string, saturated at [`NUMBER_CAP`].
pub open spec fn capped_val(s: Seq<char>) -> nat {
    if digits_val(s) >= NUMBER_CAP { NUMBER_CAP as nat } else { digits_val(s) }
}

/// Scan `text[from..to]`: `Some` with the (capped) decimal value when the
/// range is a numeric component, `None` otherwise.
fn scan_number(text: &Vec<char>, from: usize, to: usize) -> (r: Option<u64>)
    requires
        from <= to <= text@.len(),
    ensures
        (match r {
            Some(x) => numeric(text@.subrange(from as int, to as int))
                && x as nat == capped_val(text@.subrange(from as int, to as int)),
            None => !numeric(text@.subrange(from as int, to as int)),
        }),
{
    let ghost sub = text@.subrange(from as int, to as int);
    if from == to {
        return None;
    }
    let mut val: u64 = 0;
    let mut k: usize = from;
    while k < to
        invariant
            from <= k <= to <= text@.len(),
            sub == text@.subrange(from as int, to as int),
            all_digits(sub.take(k - from)),
            val <= NUMBER_CAP,
            val as nat == capped_val(sub.take(k - from)),
        decreases to - k,
    {
        let c = text[k];
        let code = c as u32;
        proof {
            assert(sub[k - from] == text@[k as int]);
        }
        if code < 48 || code > 57 {
            proof {
                assert(!is_digit_char(sub[k - from]));
            }
            return None;
        }
        let d = (code - 48) as u64;
        let t = val * 10 + d;
        let next = if t >= NUMBER_CAP { NUMBER_CAP } else { t };
        proof {
            let n = k - from;
            assert(sub.take(n + 1).drop_last() =~= sub.take(n as int));
            assert(sub.take(n + 1).last() == sub[n]);
            assert(digits_val(sub.take(n + 1)) == 10 * digits_val(sub.take(n as int)) + digit_val(sub[n]));
        }
        val = next;
        k = k + 1;
    }
    proof {
        assert(sub.take(to - from) =~= sub);
    }
    Some(val)
}

/// Check a complete due-date text against [`is_valid_date_text`].
fn date_text_valid(text: &Vec<char>) -> (r: bool)
    ensures
        r == is_valid_date_text(text@),
{
    let ghost s = text@;
    let mut d1: Option<usize> = None;
    let mut d2: Option<usize> = None;
    let mut d3: Option<usize> = None;
    let mut k: usize = 0;
    while k < text.len()
        invariant
            s == text@,
            k <= s.len(),
            d1 is None ==> d2 is None && (forall|t: int| 0 <= t < k ==> s[t] != '-'),
            d1 matches Some(a) ==> a < k && s[a as int] == '-'
                && (forall|t: int| 0 <= t < a ==> s[t] != '-'),
            d2 is None ==> d3 is None
                && (d1 matches Some(a) ==> forall|t: int| a < t < k ==> s[t] != '-'),
            d2 matches Some(b) ==> (d1 matches Some(a) ==> a < b
                && (forall|t: int| a < t < b ==> s[t] != '-')) && d1 is Some
                && b < k && s[b as int] == '-',
            d3 is None ==> (d2 matches Some(b) ==> forall|t: int| b < t < k ==> s[t] != '-'),
            d3 matches Some(cc) ==> (d2 matches Some(b) ==> b < cc) && d2 is Some
                && cc < k && s[cc as int] == '-',
        decreases s.len() - k,
    {
        let c = text[k];
        if c == '-' {
            if d1.is_none() {
                d1 = Some(k);
            } else if d2.is_none() {
                d2 = Some(k);
            } else if d3.is_none() {
                d3 = Some(k);
            }
        }
        k = k + 1;
    }
    match (d1, d2, d3) {
        (Some(a), Some(b), None) => {
            // Exactly two dashes: the only candidate split is at (a, b).
            let year_ok = match scan_number(text, 0, a) {
                Some(y) => y <= 2147483647,
                None => false,
            };
            let month_ok = match scan_number(text, a + 1, b) {
                Some(m) => 1 <= m && m <= 12,
                None => false,
            };
            let day_ok = match scan_number(text, b + 1, text.len()) {
                Some(d) => 1 <= d && d <= 31,
                None => false,
            };
            let ok = year_ok && month_ok && day_ok;
            proof {
                assert forall|t: int| 0 <= t < s.len() && t != a && t != b implies s[t] != '-' by {}
                if ok {
                    assert(date_split_at(s, a as int, b as int));
                } else {
                    assert forall|i: int, j: int| !date_split_at(s, i, j) by {
                        if date_split_at(s, i, j) {
                            assert(i == a && j == b);
                            assert(false);
                        }
                    }
                }
            }
            ok
        },
        (Some(a), Some(b), Some(cc)) => {
            // Three or more dashes: any candidate split leaves a dash inside
            // one of its components, so no split is numeric throughout.
            proof {
                assert forall|i: int, j: int| !date_split_at(s, i, j) by {
                    if date_split_at(s, i, j) {
                        let p: int = if a != i && a != j {
                            a as int
                        } else if b != i && b != j {
                            b as int
                        } else {
                            cc as int
                        };
                        assert(p != i && p != j && 0 <= p < s.len() && s[p] == '-');
                        if p < i {
                            assert(s.subrange(0, i)[p] == '-');
                            assert(!is_digit_char(s.subrange(0, i)[p]));
                        } else if p < j {
                            assert(s.subrange(i + 1, j)[p - (i + 1)] == '-');
                            assert(!is_digit_char(s.subrange(i + 1, j)[p - (i + 1)]));
                        } else {
                            assert(s.subrange(j + 1, s.len() as int)[p - (j + 1)] == '-');
                            assert(!is_digit_char(s.subrange(j + 1, s.len() as int)[p - (j + 1)]));
                        }
                        assert(false);
                    }
                }
            }
            false
        },
        _ => {
            // Fewer than two dashes: no candidate split exists at all.
            proof {
                assert forall|i: int, j: int| !date_split_at(s, i, j) by {
                    if date_split_at(s, i, j) {
                        assert(false);
                    }
                }
            }
            false
        },
    }
}

impl FormState {
    /// The mathematical image of this form.
    pub open spec fn abs(&self) -> FormAbs {
        FormAbs {
            name: self.name@,
            due_date: self.due_date@,
            cursor: self.cursor_position as nat,
            active: self.active_field,
        }
    }

    /// Form invariant: the cursor lies within the active field's text.
    pub open spec fn wf(&self) -> bool {
        form_wf(self.abs())
    }

    /// A fresh, empty form with the name field active.
    pub fn new() -> (r: Self)
        ensures
            r.abs() == form_init(),
            r.wf(),
    {
        let r = FormState {
            name: Vec::new(),
            due_date: Vec::new(),
            cursor_position: 0,
            active_field: FormField::Name,
        };
        proof {
            assert(r.abs() =~= form_init());
        }
        r
    }

    /// Insert a character at the cursor of the active field.
    pub fn insert_char(&mut self, c: char)
        requires
            old(self).wf(),
        ensures
            final(self).abs() == spec_insert_char(old(self).abs(), c),
            final(self).wf(),
    {
        match self.active_field {
            FormField::Name => {
                self.name.insert(self.cursor_position, c);
                proof {
                    assert(self.name.len() == self.name@.len());
                }
                self.cursor_position = self.cursor_position + 1;
            },
            FormField::DueDate => {
                self.due_date.insert(self.cursor_position, c);
                proof {
                    assert(self.due_date.len() == self.due_date@.len());
                }
                self.cursor_position = self.cursor_position + 1;
            },
        }
        proof {
            assert(self.abs() =~= spec_insert_char(old(self).abs(), c));
        }
    }

    /// Delete the character before the cursor; a no-op at the start.
    pub fn delete_char(&mut self)
        requires
            old(self).wf(),
        ensures
            final(self).abs() == spec_delete_char(old(self).abs()),
            final(self).wf(),
    {
        if self.cursor_position > 0 {
            match self.active_field {
                FormField::Name => {
                    self.name.remove(self.cursor_position - 1);
                },
                FormField::DueDate => {
                    self.due_date.remove(self.cursor_position - 1);
                },
            }
            self.cursor_position = self.cursor_position - 1;
        }
        proof {
            assert(self.abs() =~= spec_delete_char(old(self).abs()));
        }
    }

    /// Activate the other field, cursor at the end of its text.
    pub fn next_field(&mut self)
        ensures
            final(self).abs() == spec_next_field(old(self).abs()),
            final(self).wf(),
    {
        match self.active_field {
            FormField::Name => {
                self.active_field = FormField::DueDate;
                self.cursor_position = self.due_date.len();
            },
            FormField::DueDate => {
                self.active_field = FormField::Name;
                self.cursor_position = self.name.len();
            },
        }
        proof {
            assert(self.abs() =~= spec_next_field(old(self).abs()));
        }
    }

    /// With exactly two fields, stepping back is the same as stepping
    /// forward.
    pub fn previous_field(&mut self)
        ensures
            final(self).abs() == spec_next_field(old(self).abs()),
            final(self).wf(),
    {
        self.next_field();
    }

    /// Whether the due-date text, if entered, is a well-formed date.
    pub fn is_valid_date(&self) -> (r: bool)
        ensures
            r == (self.due_date@.len() == 0 || is_valid_date_text(self.due_date@)),
    {
        if self.due_date.is_empty() {
            return true;
        }
        date_text_valid(&self.due_date)
    }

    /// Whether the form may be submitted: the name is required, the due
    /// date optional but checked when present.
    pub fn is_valid(&self) -> (r: bool)
        ensures
            r == form_valid(self.abs()),
    {
        if self.name.is_empty() {
            return false;
        }
        if !self.due_date.is_empty() {
            return self.is_valid_date();
        }
        true
    }
}

} // verus!
