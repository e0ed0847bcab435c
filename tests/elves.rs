use cch23::elves::elf_on_a_shelf;

#[test]
fn main_test_elf_on_a_shelf() {
    let result1 = elf_on_a_shelf(
        "The mischievous elf peeked out from behind the toy workshop,
            and another elf joined in the festive dance.
            Look, there is also an elf on that shelf!",
    );

    assert_eq!(result1.elf, 4);
    assert_eq!(result1.elf_on_a_shelf, 0);
    assert_eq!(result1.shelf_with_no_elf_on_it, 1);

    let result2 = elf_on_a_shelf(
        "there is an elf on a shelf on an elf.
            there is also another shelf in Belfast.",
    );

    assert_eq!(result2.elf, 5);
    assert_eq!(result2.elf_on_a_shelf, 1);
    assert_eq!(result2.shelf_with_no_elf_on_it, 1);
}

#[test]
fn empty_text_counts_nothing() {
    let r = elf_on_a_shelf("");
    assert_eq!((r.elf, r.elf_on_a_shelf, r.shelf_with_no_elf_on_it), (0, 0, 0));
}

#[test]
fn matching_is_case_sensitive() {
    let r = elf_on_a_shelf("ELF Elf eLf elf SHELF");
    assert_eq!((r.elf, r.elf_on_a_shelf, r.shelf_with_no_elf_on_it), (1, 0, 0));
}

#[test]
fn every_elf_on_a_shelf_takes_its_shelf() {
    let r = elf_on_a_shelf("elf on a shelf elf on a shelf shelf");
    assert_eq!((r.elf, r.elf_on_a_shelf, r.shelf_with_no_elf_on_it), (5, 2, 1));
}

#[test]
fn matches_do_not_overlap() {
    let r = elf_on_a_shelf("elfelf shelfshelf");
    assert_eq!((r.elf, r.elf_on_a_shelf, r.shelf_with_no_elf_on_it), (4, 0, 2));
}

#[test]
fn text_outside_ascii_is_scanned_too() {
    let r = elf_on_a_shelf("ÉLF élf – elf on a shelf ☃ shelf");
    assert_eq!((r.elf, r.elf_on_a_shelf, r.shelf_with_no_elf_on_it), (3, 1, 1));
}
