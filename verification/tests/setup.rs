use image_resizer::config::{check_output_type, Config, FsNode, SetupError};
use image_resizer::format::{conv_params, format_from_name, Format};

fn config() -> Config {
    Config {
        input: "/img".to_string(),
        output: None,
        single_thread: false,
        force: false,
        allow_gif: false,
        remain_profile: false,
        side_maximum: 1920,
        only_shrink: false,
        sharpen: true,
        quality: 92,
        force_to_chroma_quartered: false,
    }
}

#[test]
fn quality_out_of_range_fails_setup() {
    // Quality 150 is rejected before any traversal begins.
    let mut c = config();
    c.quality = 150;
    assert_eq!(c.validate(), Err(SetupError::QualityOutOfRange));
}

#[test]
fn side_maximum_zero_fails_setup() {
    let mut c = config();
    c.side_maximum = 0;
    assert_eq!(c.validate(), Err(SetupError::SideMaximumZero));
}

#[test]
fn valid_config_passes() {
    assert_eq!(config().validate(), Ok(()));
    let mut c = config();
    c.quality = 100;
    assert_eq!(c.validate(), Ok(()));
}

#[test]
fn output_type_must_match_input_kind() {
    assert_eq!(check_output_type(true, FsNode::File), Ok(()));
    assert_eq!(check_output_type(true, FsNode::Missing), Ok(()));
    assert_eq!(
        check_output_type(true, FsNode::Directory),
        Err(SetupError::OutputIsDirectory)
    );
    assert_eq!(check_output_type(false, FsNode::Directory), Ok(()));
    assert_eq!(check_output_type(false, FsNode::Missing), Ok(()));
    assert_eq!(
        check_output_type(false, FsNode::File),
        Err(SetupError::OutputIsFile)
    );
}

#[test]
fn format_names_from_the_codec() {
    assert_eq!(format_from_name("JPEG"), Format::Jpeg);
    assert_eq!(format_from_name("PNG"), Format::Png);
    assert_eq!(format_from_name("TIFF"), Format::Tiff);
    assert_eq!(format_from_name("WEBP"), Format::Webp);
    assert_eq!(format_from_name("PGM"), Format::Pgm);
    assert_eq!(format_from_name("GIF"), Format::Gif);
    assert_eq!(format_from_name("BMP"), Format::Unsupported);
    assert_eq!(format_from_name("jpeg"), Format::Unsupported);
    assert_eq!(format_from_name(""), Format::Unsupported);
}

#[test]
fn unsupported_formats_are_skipped() {
    assert_eq!(conv_params(Format::Unsupported, &config(), false), None);
}

#[test]
fn gif_items_skipped_unless_allowed() {
    assert_eq!(conv_params(Format::Gif, &config(), false), None);
    let mut c = config();
    c.allow_gif = true;
    let p = conv_params(Format::Gif, &c, false).unwrap();
    assert_eq!(p.quality, None);
    assert!(!p.forward_ppi);
}

#[test]
fn shared_resize_parameters() {
    let mut c = config();
    c.remain_profile = true;
    c.only_shrink = true;
    c.sharpen = false;
    let p = conv_params(Format::Png, &c, false).unwrap();
    assert!(p.remain_profile);
    assert_eq!(p.width, 1920);
    assert_eq!(p.height, 1920);
    assert!(p.shrink_only);
    assert!(p.sharpen_disabled);
}

#[test]
fn quality_only_for_lossy_formats() {
    let c = config();
    assert_eq!(conv_params(Format::Jpeg, &c, false).unwrap().quality, Some(92));
    assert_eq!(conv_params(Format::Webp, &c, false).unwrap().quality, Some(92));
    assert_eq!(conv_params(Format::Png, &c, false).unwrap().quality, None);
    assert_eq!(conv_params(Format::Pgm, &c, false).unwrap().quality, None);
    assert_eq!(conv_params(Format::Tiff, &c, false).unwrap().quality, None);
}

#[test]
fn ppi_only_for_formats_with_resolution_metadata() {
    let c = config();
    assert!(conv_params(Format::Jpeg, &c, true).unwrap().forward_ppi);
    assert!(conv_params(Format::Png, &c, true).unwrap().forward_ppi);
    assert!(conv_params(Format::Tiff, &c, true).unwrap().forward_ppi);
    assert!(!conv_params(Format::Webp, &c, true).unwrap().forward_ppi);
    assert!(!conv_params(Format::Pgm, &c, true).unwrap().forward_ppi);
    assert!(!conv_params(Format::Jpeg, &c, false).unwrap().forward_ppi);
}

#[test]
fn chroma_subsampling_only_for_jpeg() {
    let mut c = config();
    c.force_to_chroma_quartered = true;
    assert!(conv_params(Format::Jpeg, &c, false).unwrap().force_to_chroma_quartered);
    assert!(!conv_params(Format::Webp, &c, false).unwrap().force_to_chroma_quartered);
    assert!(!conv_params(Format::Png, &c, false).unwrap().force_to_chroma_quartered);
}
