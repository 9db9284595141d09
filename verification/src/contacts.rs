//! Parsing a contact table out of rows of text cells.
//!
//! A page of text, already cut into rows, holds a members table: some
//! preamble, a header row whose first cell reads `Surname`, and then the
//! member rows, each of exactly six cells, until the first row of another
//! shape.  [`members_from_rows`] finds the table and turns each member
//! row into a [`MemberInfo`], putting the surname into title case.

use vstd::prelude::*;

verus! {

/// One member of the contact list.
#[derive(Debug)]
pub struct MemberInfo {
    pub first_name: String,
    pub surname: String,
    pub email: String,
    pub mobile: String,
}

/// A whole contact list.
pub struct ContactList {
    pub members: Vec<MemberInfo>,
}

/// A row that cannot be a member row: it does not have exactly six cells.
#[derive(Debug)]
pub struct RowShapeError {
    pub cells: usize,
}

/// The title-case rendering of a text, as the `heck` crate defines it:
/// a function of the characters alone.
pub uninterp spec fn title_case_of(s: Seq<char>) -> Seq<char>;

/// Relies on heck's `ToTitleCase` for `str`: the word boundaries and the
/// capitalization depend only on the characters of the input, so the
/// result is a function of them alone.
#[verifier::external_body]
fn title_case(s: &str) -> (r: String)
    ensures
        r@ == title_case_of(s@),
{
    heck::ToTitleCase::to_title_case(s)
}

/// The member a six-cell row describes: surname in title case, then the
/// given name, email address and mobile number as written; the last two
/// cells carry nothing of interest.
pub open spec fn row_matches_member(row: Vec<String>, m: MemberInfo) -> bool {
    &&& m.surname@ == title_case_of(row@[0]@)
    &&& m.first_name@ == row@[1]@
    &&& m.email@ == row@[2]@
    &&& m.mobile@ == row@[3]@
}

/// Turns one six-cell row into a member; any other shape is refused,
/// reporting how many cells the row had.
pub fn parse_row(row: &Vec<String>) -> (r: Result<MemberInfo, RowShapeError>)
    ensures
        (r is Ok) <==> row@.len() == 6,
        r matches Ok(m) ==> row_matches_member(*row, m),
        r matches Err(e) ==> e.cells == row@.len(),
{
    if row.len() == 6 {
        Ok(
            MemberInfo {
                surname: title_case(row[0].as_str()),
                first_name: row[1].clone(),
                email: row[2].clone(),
                mobile: row[3].clone(),
            },
        )
    } else {
        Err(RowShapeError { cells: row.len() })
    }
}

/// The row is the table header: its first cell reads `Surname`.
pub open spec fn is_header(row: Vec<String>) -> bool {
    row@.len() > 0 && row@[0]@ == "Surname"@
}

/// The member rows of the table: everything up to and including the first
/// header row is discarded, and from there the rows of exactly six cells
/// are taken until the first row of another shape.
pub open spec fn table_rows(rs: Seq<Vec<String>>) -> Seq<Vec<String>>
    decreases rs.len(),
{
    if rs.len() == 0 {
        Seq::empty()
    } else if is_header(rs[0]) {
        body_rows(rs.drop_first())
    } else {
        table_rows(rs.drop_first())
    }
}

/// The longest prefix of six-cell rows.
pub open spec fn body_rows(rs: Seq<Vec<String>>) -> Seq<Vec<String>>
    decreases rs.len(),
{
    if rs.len() == 0 {
        Seq::empty()
    } else if rs[0]@.len() == 6 {
        seq![rs[0]] + body_rows(rs.drop_first())
    } else {
        Seq::empty()
    }
}

/// Reads the members table out of the rows of a page: one member per
/// six-cell row after the header, in order.
pub fn members_from_rows(rows: &Vec<Vec<String>>) -> (members: Vec<MemberInfo>)
    ensures
        members@.len() == table_rows(rows@).len(),
        forall|i: int|
            0 <= i < members@.len() ==> row_matches_member(
                #[trigger] table_rows(rows@)[i],
                members@[i],
            ),
{
    let header = String::from_str("Surname");
    proof {
        reveal_strlit("Surname");
    }
    let n = rows.len();
    let mut i: usize = 0;
    proof {
        assert(rows@.skip(0) =~= rows@);
    }
    while i < n && !(rows[i].len() > 0 && rows[i][0] == header)
        invariant
            i <= n == rows@.len(),
            header@ == "Surname"@,
            table_rows(rows@) == table_rows(rows@.skip(i as int)),
            forall|j: int| 0 <= j < i ==> !is_header(rows@[j]),
        decreases n - i,
    {
        proof {
            assert(rows@.skip(i as int).drop_first() =~= rows@.skip(i as int + 1));
            assert(rows@.skip(i as int)[0] == rows@[i as int]);
        }
        i = i + 1;
    }
    let mut members: Vec<MemberInfo> = Vec::new();
    if i == n {
        proof {
            assert(rows@.skip(n as int) =~= Seq::<Vec<String>>::empty());
        }
        return members;
    }
    proof {
        assert(rows@.skip(i as int)[0] == rows@[i as int]);
        assert(is_header(rows@[i as int]));
        assert(rows@.skip(i as int).drop_first() =~= rows@.skip(i as int + 1));
        assert(table_rows(rows@) == body_rows(rows@.skip(i as int + 1)));
    }
    let mut j: usize = i + 1;
    while j < n && rows[j].len() == 6
        invariant
            i < j <= n == rows@.len(),
            table_rows(rows@) == rows@.subrange(i as int + 1, j as int) + body_rows(
                rows@.skip(j as int),
            ),
            members@.len() == j - i - 1,
            forall|k: int|
                0 <= k < members@.len() ==> row_matches_member(
                    #[trigger] rows@.subrange(i as int + 1, j as int)[k],
                    members@[k],
                ),
        decreases n - j,
    {
        let member = match parse_row(&rows[j]) {
            Ok(member) => member,
            Err(_) => unreached(),
        };
        members.push(member);
        proof {
            assert(rows@.skip(j as int)[0] == rows@[j as int]);
            assert(rows@.skip(j as int).drop_first() =~= rows@.skip(j as int + 1));
            assert(body_rows(rows@.skip(j as int)) == seq![rows@[j as int]] + body_rows(
                rows@.skip(j as int + 1),
            ));
            assert(rows@.subrange(i as int + 1, j as int + 1) =~= rows@.subrange(
                i as int + 1,
                j as int,
            ) + seq![rows@[j as int]]);
            assert(rows@.subrange(i as int + 1, j as int + 1) + body_rows(
                rows@.skip(j as int + 1),
            ) =~= rows@.subrange(i as int + 1, j as int) + (seq![rows@[j as int]] + body_rows(
                rows@.skip(j as int + 1),
            )));
        }
        j = j + 1;
    }
    proof {
        if j < n {
            assert(rows@.skip(j as int)[0] == rows@[j as int]);
        } else {
            assert(rows@.skip(j as int) =~= Seq::<Vec<String>>::empty());
        }
        assert(body_rows(rows@.skip(j as int)) == Seq::<Vec<String>>::empty());
        assert(table_rows(rows@) =~= rows@.subrange(i as int + 1, j as int));
    }
    members
}

} // verus!
