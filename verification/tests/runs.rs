use skip::engine::Action;
use skip::engine::CopyError;
use skip::engine::Event;
use skip::engine::Outcome;
use skip::engine::Transfer;
use skip::image::read_at;
use skip::image::write_at;
use skip::layout::SectorLayout;
use skip::request::TransferRequest;
use skip::run::process_image;

fn request(read_offset: u64, write_offset: u64) -> TransferRequest {
    TransferRequest::new(String::from("in"), String::from("out"), read_offset, write_offset)
}

/// A dump in which every byte tells its own position.
fn numbered(len: usize) -> Vec<u8> {
    let mut bytes = Vec::new();
    for i in 0..len {
        bytes.push((i % 251) as u8);
    }
    bytes
}

#[test]
fn one_unit_gives_its_sector() {
    let mut input = vec![0xAAu8; 512];
    input.extend_from_slice(&[0xFFu8; 8]);
    let mut output = Vec::new();
    let outcome = process_image(&request(0, 0), SectorLayout::standard(), &input, &mut output);
    assert_eq!(output, vec![0xAAu8; 512]);
    assert_eq!(outcome, Outcome::Failed(CopyError::Read));
}

#[test]
fn input_shorter_than_a_sector_is_copied_whole() {
    let input = numbered(300);
    let mut output = Vec::new();
    let outcome = process_image(&request(0, 0), SectorLayout::standard(), &input, &mut output);
    assert_eq!(outcome, Outcome::Copied);
    assert_eq!(output.len(), 300);
    assert_eq!(output, input);
}

#[test]
fn input_of_one_sector_and_no_spare_is_copied_whole() {
    let input = numbered(512);
    let mut output = Vec::new();
    let outcome = process_image(&request(0, 0), SectorLayout::standard(), &input, &mut output);
    assert_eq!(outcome, Outcome::Copied);
    assert_eq!(output, input);
}

#[test]
fn read_offset_at_input_size_leaves_output_untouched() {
    let input = numbered(520);
    let mut output = vec![7u8; 33];
    let outcome = process_image(&request(520, 5), SectorLayout::standard(), &input, &mut output);
    assert_eq!(outcome, Outcome::NothingToDo);
    assert!(outcome.is_success());
    assert_eq!(output, vec![7u8; 33]);
}

#[test]
fn read_offset_past_input_size_leaves_output_untouched() {
    let input = numbered(520);
    let mut output = Vec::new();
    let outcome =
        process_image(&request(100000, 1000), SectorLayout::standard(), &input, &mut output);
    assert_eq!(outcome, Outcome::NothingToDo);
    assert!(output.is_empty());
    let outcome =
        process_image(&request(u64::MAX, u64::MAX), SectorLayout::standard(), &input, &mut output);
    assert_eq!(outcome, Outcome::NothingToDo);
    assert!(output.is_empty());
}

#[test]
fn empty_input_leaves_output_untouched() {
    let input: Vec<u8> = Vec::new();
    let mut output = vec![1u8, 2, 3];
    let outcome = process_image(&request(0, 0), SectorLayout::standard(), &input, &mut output);
    assert_eq!(outcome, Outcome::NothingToDo);
    assert_eq!(output, vec![1u8, 2, 3]);
}

#[test]
fn write_offset_past_the_end_leaves_zeros_before_the_payload() {
    let mut input = vec![0xAAu8; 512];
    input.extend_from_slice(&[0xFFu8; 8]);
    let mut output = Vec::new();
    process_image(&request(0, 1000), SectorLayout::standard(), &input, &mut output);
    assert_eq!(output.len(), 1512);
    assert_eq!(&output[..1000], &[0u8; 1000][..]);
    assert_eq!(&output[1000..], &[0xAAu8; 512][..]);
}

#[test]
fn units_without_spare_bytes_are_copied_byte_for_byte() {
    let layout = SectorLayout::new(512, 0).unwrap();
    for len in [1usize, 511, 512, 513, 1024, 1300] {
        let input = numbered(len);
        let mut output = Vec::new();
        let outcome = process_image(&request(0, 0), layout, &input, &mut output);
        assert_eq!(outcome, Outcome::Copied);
        assert_eq!(output, input);
    }
}

#[test]
fn whole_units_lose_their_spare_bytes() {
    for units in [1usize, 2, 3, 17] {
        let input = numbered(units * 520);
        let mut output = Vec::new();
        let outcome = process_image(&request(0, 0), SectorLayout::standard(), &input, &mut output);
        assert_eq!(output.len(), units * 512);
        for k in 0..output.len() {
            assert_eq!(output[k], input[(k / 512) * 520 + k % 512]);
        }
        assert_eq!(outcome, Outcome::Failed(CopyError::Read));
    }
}

#[test]
fn three_units_by_hand() {
    let mut input = Vec::new();
    for unit in 1u8..=3 {
        input.extend_from_slice(&[unit; 512]);
        input.extend_from_slice(&[0xF0 + unit; 8]);
    }
    let mut output = Vec::new();
    process_image(&request(0, 0), SectorLayout::standard(), &input, &mut output);
    let mut expected = vec![1u8; 512];
    expected.extend_from_slice(&[2u8; 512]);
    expected.extend_from_slice(&[3u8; 512]);
    assert_eq!(output, expected);
}

#[test]
fn last_unit_cut_inside_its_payload() {
    let input = numbered(520 + 100);
    let mut output = Vec::new();
    let outcome = process_image(&request(0, 0), SectorLayout::standard(), &input, &mut output);
    assert_eq!(output.len(), 612);
    assert_eq!(&output[..512], &input[..512]);
    assert_eq!(&output[512..], &input[520..]);
    assert_eq!(outcome, Outcome::Failed(CopyError::Read));
}

#[test]
fn last_unit_cut_inside_its_spare_bytes() {
    let input = numbered(520 + 515);
    let mut output = Vec::new();
    process_image(&request(0, 0), SectorLayout::standard(), &input, &mut output);
    assert_eq!(output.len(), 1024);
    assert_eq!(&output[..512], &input[..512]);
    assert_eq!(&output[512..], &input[520..1032]);
}

#[test]
fn read_offset_inside_the_input_starts_the_units_there() {
    let input = numbered(3 * 520);
    let mut output = Vec::new();
    process_image(&request(520, 0), SectorLayout::standard(), &input, &mut output);
    assert_eq!(output.len(), 1024);
    assert_eq!(&output[..512], &input[520..1032]);
    assert_eq!(&output[512..], &input[1040..1552]);

    let mut output = Vec::new();
    let outcome = process_image(&request(1500, 0), SectorLayout::standard(), &input, &mut output);
    assert_eq!(output, &input[1500..]);
    assert_eq!(outcome, Outcome::Copied);
}

#[test]
fn longer_output_is_written_over_in_place_and_keeps_its_length() {
    let input = numbered(520);
    let mut output = vec![0x11u8; 2000];
    process_image(&request(0, 100), SectorLayout::standard(), &input, &mut output);
    assert_eq!(output.len(), 2000);
    assert_eq!(&output[..100], &[0x11u8; 100][..]);
    assert_eq!(&output[100..612], &input[..512]);
    assert_eq!(&output[612..], &[0x11u8; 1388][..]);
}

#[test]
fn output_grows_where_the_payload_reaches_past_its_end() {
    let input = numbered(1040);
    let mut output = vec![0x11u8; 600];
    process_image(&request(0, 100), SectorLayout::standard(), &input, &mut output);
    assert_eq!(output.len(), 1124);
    assert_eq!(&output[..100], &[0x11u8; 100][..]);
    assert_eq!(&output[100..612], &input[..512]);
    assert_eq!(&output[612..], &input[520..1032]);
}

#[test]
fn other_unit_sizes() {
    let layout = SectorLayout::new(4, 2).unwrap();
    let input: Vec<u8> = (0u8..15).collect();
    let mut output = Vec::new();
    let outcome = process_image(&request(1, 3), layout, &input, &mut output);
    assert_eq!(output, vec![0, 0, 0, 1, 2, 3, 4, 7, 8, 9, 10, 13, 14]);
    assert_eq!(outcome, Outcome::Failed(CopyError::Read));
}

#[test]
fn read_obtains_what_the_image_holds() {
    let image = numbered(10);
    assert_eq!(read_at(&image, 0, 4), vec![0, 1, 2, 3]);
    assert_eq!(read_at(&image, 8, 4), vec![8, 9]);
    assert_eq!(read_at(&image, 6, 4), vec![6, 7, 8, 9]);
    assert_eq!(read_at(&image, 10, 4), Vec::<u8>::new());
    assert_eq!(read_at(&image, 11, 4), Vec::<u8>::new());
    assert_eq!(read_at(&image, u64::MAX, 4), Vec::<u8>::new());
    assert_eq!(read_at(&image, 3, 0), Vec::<u8>::new());
    assert_eq!(read_at(&image, 0, usize::MAX), image);
}

#[test]
fn write_replaces_extends_and_fills() {
    let mut image = vec![1u8, 2, 3, 4];
    write_at(&mut image, 1, &[9, 9]);
    assert_eq!(image, vec![1, 9, 9, 4]);
    write_at(&mut image, 3, &[7, 7]);
    assert_eq!(image, vec![1, 9, 9, 7, 7]);
    write_at(&mut image, 5, &[5]);
    assert_eq!(image, vec![1, 9, 9, 7, 7, 5]);
    write_at(&mut image, 8, &[6]);
    assert_eq!(image, vec![1, 9, 9, 7, 7, 5, 0, 0, 6]);
}

#[test]
fn write_of_nothing_changes_nothing() {
    let mut image = vec![1u8, 2, 3];
    write_at(&mut image, 1, &[]);
    assert_eq!(image, vec![1, 2, 3]);
    write_at(&mut image, 100, &[]);
    assert_eq!(image, vec![1, 2, 3]);
}

#[test]
fn run_driven_by_hand_agrees_with_process_image() {
    let input = numbered(2 * 520 + 77);
    let layout = SectorLayout::standard();
    let mut expected = vec![0x22u8; 50];
    let expected_outcome = process_image(&request(3, 20), layout, &input, &mut expected);

    let mut output = vec![0x22u8; 50];
    let mut transfer = Transfer::new(&request(3, 20), layout);
    let mut in_pos = 0u64;
    let mut out_pos = 0usize;
    let mut block = Vec::new();
    let outcome = loop {
        let event = match transfer.action() {
            Action::OpenInput | Action::OpenOutput | Action::Flush => Event::Done,
            Action::SeekInput { offset } => {
                in_pos = offset;
                Event::Done
            }
            Action::SeekOutput { offset } => {
                out_pos = offset as usize;
                Event::Done
            }
            Action::QuerySize => Event::Size { bytes: input.len() as u64 },
            Action::ReadPayload { len } => {
                block = read_at(&input, in_pos, len);
                in_pos += block.len() as u64;
                Event::Read { count: block.len() }
            }
            Action::ReadSpare { len } => {
                let spare = read_at(&input, in_pos, len);
                in_pos += spare.len() as u64;
                Event::Read { count: spare.len() }
            }
            Action::WritePayload { len } => {
                write_at(&mut output, out_pos, &block[..len]);
                out_pos += len;
                Event::Done
            }
            Action::Finish { outcome } => break outcome,
        };
        assert!(transfer.advance(event));
    };
    assert_eq!(outcome, expected_outcome);
    assert_eq!(output, expected);
    assert_eq!(output.len(), 20 + 512 + 512 + 77 - 3);
}
