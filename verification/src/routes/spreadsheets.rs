//! The spreadsheet of how many events each person attended and supervised.
use vstd::prelude::*;
use crate::text::{owned, decimal, decimal_string};
use crate::routes::csv_import_export::csv_text::{csv_document, csv_document_of, rows_view, fields_view};
use crate::routes::update_events::{form_surname_keys, group_by_form};
use crate::sorting::{KeyPart, is_stable_order};

verus! {

/// A person as the spreadsheet lists them.
pub struct SheetPerson {
    pub id: i32,
    pub first_name: String,
    pub surname: String,
    pub form: String,
}

/// How many times `id` occurs in `ids`.
pub open spec fn occurrences(ids: Seq<i32>, id: i32) -> nat
    decreases ids.len(),
{
    if ids.len() == 0 {
        0
    } else if ids.last() == id {
        occurrences(ids.drop_last(), id) + 1
    } else {
        occurrences(ids.drop_last(), id)
    }
}

/// Counts how many times `id` occurs in `ids`.
pub fn count_of(ids: &Vec<i32>, id: i32) -> (n: usize)
    ensures
        n == occurrences(ids@, id),
{
    let mut n: usize = 0;
    let mut i: usize = 0;
    while i < ids.len()
        invariant
            i <= ids@.len(),
            n == occurrences(ids@.take(i as int), id),
            n <= i,
        decreases ids@.len() - i,
    {
        assert(ids@.take(i + 1).drop_last() =~= ids@.take(i as int));
        if ids[i] == id {
            n = n + 1;
        }
        i = i + 1;
    }
    assert(ids@.take(ids@.len() as int) =~= ids@);
    n
}

/// The spreadsheet's header row.
pub open spec fn sheet_header() -> Seq<Seq<char>> {
    seq!["First Name"@, "Surname"@, "Form"@, "House Events"@, "House Events supervised"@]
}

/// A person's row: names, form, and the number of events they attended
/// (`participations` holds one entry per participation) and supervised.
pub open spec fn sheet_row(p: SheetPerson, participations: Seq<i32>, supervisions: Seq<i32>) -> Seq<Seq<char>> {
    seq![
        p.first_name@,
        p.surname@,
        p.form@,
        decimal(occurrences(participations, p.id)),
        decimal(occurrences(supervisions, p.id)),
    ]
}

/// The spreadsheet's rows as text: the header, then a row for each person in `order`.
pub open spec fn sheet_rows(people: Seq<SheetPerson>, order: Seq<usize>, participations: Seq<i32>, supervisions: Seq<i32>) -> Seq<Seq<Seq<char>>> {
    seq![sheet_header()] + order.map_values(|i: usize| sheet_row(people[i as int], participations, supervisions))
}

/// The people's keys for the spreadsheet's order: form, then surname.
pub open spec fn sheet_keys(people: Seq<SheetPerson>) -> Seq<Seq<KeyPart>> {
    form_surname_keys(people.map_values(|p: SheetPerson| p.form), people.map_values(|p: SheetPerson| p.surname))
}

/// Writes the spreadsheet as a CSV file, people ordered by form, then surname, ties
/// in the order given.
pub fn spreadsheet_csv(people: &Vec<SheetPerson>, participations: &Vec<i32>, supervisions: &Vec<i32>) -> (bytes: Vec<u8>)
    ensures
        exists|order: Seq<usize>|
            #![trigger is_stable_order(sheet_keys(people@), order)]
            is_stable_order(sheet_keys(people@), order)
            && bytes@ == csv_document_of(sheet_rows(people@, order, participations@, supervisions@)),
{
    let mut forms: Vec<String> = Vec::new();
    let mut surnames: Vec<String> = Vec::new();
    let mut i: usize = 0;
    while i < people.len()
        invariant
            i <= people@.len(),
            forms@ == people@.take(i as int).map_values(|p: SheetPerson| p.form),
            surnames@ == people@.take(i as int).map_values(|p: SheetPerson| p.surname),
        decreases people@.len() - i,
    {
        forms.push(people[i].form.clone());
        surnames.push(people[i].surname.clone());
        proof {
            assert(people@.take(i + 1).map_values(|p: SheetPerson| p.form) =~= forms@);
            assert(people@.take(i + 1).map_values(|p: SheetPerson| p.surname) =~= surnames@);
        }
        i = i + 1;
    }
    assert(people@.take(people@.len() as int) =~= people@);
    let grouped = group_by_form(&forms, &surnames);
    let order = grouped.order;
    assert(form_surname_keys(forms@, surnames@) =~= sheet_keys(people@));
    let ordered = spreadsheet_rows(people, &order, participations, supervisions);
    csv_document(&ordered)
}

/// The spreadsheet's rows: the header, then a row for the person at each position of
/// `order`, in that order.
pub fn spreadsheet_rows(people: &Vec<SheetPerson>, order: &Vec<usize>, participations: &Vec<i32>, supervisions: &Vec<i32>) -> (rows: Vec<Vec<String>>)
    requires
        forall|k: int| 0 <= k < order@.len() ==> (#[trigger] order@[k] as int) < people@.len(),
    ensures
        rows_view(rows@) == sheet_rows(people@, order@, participations@, supervisions@),
{
    let mut header: Vec<String> = Vec::new();
    header.push(owned("First Name"));
    header.push(owned("Surname"));
    header.push(owned("Form"));
    header.push(owned("House Events"));
    header.push(owned("House Events supervised"));
    assert(fields_view(header@) =~= sheet_header());
    let mut rows: Vec<Vec<String>> = Vec::new();
    rows.push(header);
    assert(rows_view(rows@) =~= sheet_rows(people@, order@.take(0), participations@, supervisions@));
    let mut k: usize = 0;
    while k < order.len()
        invariant
            k <= order@.len(),
            forall|j: int| 0 <= j < order@.len() ==> (#[trigger] order@[j] as int) < people@.len(),
            rows_view(rows@) == sheet_rows(people@, order@.take(k as int), participations@, supervisions@),
        decreases order@.len() - k,
    {
        let p = &people[order[k]];
        let attended = count_of(participations, p.id);
        let supervised = count_of(supervisions, p.id);
        let mut row: Vec<String> = Vec::new();
        row.push(p.first_name.clone());
        row.push(p.surname.clone());
        row.push(p.form.clone());
        row.push(decimal_string(attended as u128));
        row.push(decimal_string(supervised as u128));
        proof {
            assert(fields_view(row@) =~= sheet_row(people@[order@[k as int] as int], participations@, supervisions@));
            assert(order@.take(k + 1) =~= order@.take(k as int).push(order@[k as int]));
        }
        let ghost before = rows@;
        rows.push(row);
        proof {
            assert(rows_view(rows@) =~= rows_view(before).push(fields_view(row@)));
            assert(rows_view(rows@) =~= sheet_rows(people@, order@.take(k + 1), participations@, supervisions@));
        }
        k = k + 1;
    }
    assert(order@.take(order@.len() as int) =~= order@);
    rows
}

} // verus!
