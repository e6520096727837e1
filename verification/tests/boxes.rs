use mixlab::aac::{AacProfile, ChannelConfiguration, SamplingFrequency};
use mixlab::fmp4::init::{
    encode_ftyp, AacSampleEntry, AvcConfigurationBox, AvcSampleEntry, EditBox, EditListBox,
    HandlerReferenceBox, InitializationSegment, MediaBox, MediaHeaderBox, MediaInformationBox,
    MovieBox, MovieExtendsBox, MovieExtendsHeaderBox, MovieHeaderBox, Mpeg4EsDescriptorBox,
    SampleDescriptionBox, SampleEntry, SampleTableBox, SoundMediaHeaderBox, TrackBox,
    TrackExtendsBox, TrackHeaderBox, VideoMediaHeaderBox, SOUN, VIDE,
};
use mixlab::fmp4::media::{
    MediaDataBox, MediaSegment, MovieFragmentBox, MovieFragmentHeaderBox, Sample, SampleFlags,
    TrackFragmentBaseMediaDecodeTimeBox, TrackFragmentBox, TrackFragmentHeaderBox, TrackRunBox,
};
use mixlab::fmp4::wire::{
    full_box_of, plain_box_of, put_bytes, put_i16, put_i32, put_opt_u32, put_u16, put_u32, put_u64,
    put_u8, put_zeroes,
};
use mse_fmp4::fmp4::Mp4Box;
use mse_fmp4::io::WriteTo;

/// What the `mse_fmp4` crate writes for a box.
fn written<B: Mp4Box>(b: &B) -> Vec<u8> {
    let mut out = Vec::new();
    b.write_box(&mut out).unwrap();
    out
}

fn their_aac_entry() -> mse_fmp4::fmp4::SampleEntry {
    mse_fmp4::fmp4::SampleEntry::Aac(mse_fmp4::fmp4::AacSampleEntry {
        esds_box: mse_fmp4::fmp4::Mpeg4EsDescriptorBox {
            profile: mse_fmp4::aac::AacProfile::Lc,
            frequency: mse_fmp4::aac::SamplingFrequency::Hz44100,
            channel_configuration: mse_fmp4::aac::ChannelConfiguration::TwoChannels,
        },
    })
}

fn our_aac_entry() -> AacSampleEntry {
    AacSampleEntry {
        esds_box: Mpeg4EsDescriptorBox {
            profile: AacProfile::Lc,
            frequency: SamplingFrequency::Hz44100,
            channel_configuration: ChannelConfiguration::TwoChannels,
        },
    }
}

fn their_avc_entry() -> mse_fmp4::fmp4::SampleEntry {
    mse_fmp4::fmp4::SampleEntry::Avc(mse_fmp4::fmp4::AvcSampleEntry {
        width: 640,
        height: 360,
        avcc_box: mse_fmp4::fmp4::AvcConfigurationBox {
            configuration: mse_fmp4::avc::AvcDecoderConfigurationRecord {
                profile_idc: 66,
                constraint_set_flag: 0xc0,
                level_idc: 30,
                sequence_parameter_set: vec![0x67, 0x42, 0xc0, 0x1e],
                picture_parameter_set: vec![0x68, 0xce],
            },
        },
    })
}

/// The record of `their_avc_entry` as bytes.
fn record_bytes() -> Vec<u8> {
    vec![1, 66, 0xc0, 30, 0xff, 0xe1, 0, 4, 0x67, 0x42, 0xc0, 0x1e, 1, 0, 2, 0x68, 0xce]
}

fn our_avc_entry() -> AvcSampleEntry {
    AvcSampleEntry { width: 640, height: 360, avcc_box: AvcConfigurationBox::Raw(record_bytes()) }
}

fn their_track(is_video: bool) -> mse_fmp4::fmp4::TrackBox {
    let mut track = mse_fmp4::fmp4::TrackBox::new(is_video);
    track.tkhd_box.duration = 77;
    track.mdia_box.mdhd_box.timescale = 48000;
    track.mdia_box.mdhd_box.duration = 5;
    track.edts_box.elst_box.media_time = -3;
    if is_video {
        track.tkhd_box.width = 640 << 16;
        track.tkhd_box.height = 360 << 16;
        track.mdia_box.minf_box.stbl_box.stsd_box.sample_entries.push(their_avc_entry());
    } else {
        track.mdia_box.minf_box.stbl_box.stsd_box.sample_entries.push(their_aac_entry());
    }
    track
}

fn our_track(is_video: bool) -> TrackBox {
    TrackBox {
        tkhd_box: TrackHeaderBox {
            track_id: if is_video { 1 } else { 2 },
            duration: 77,
            volume: if is_video { 0 } else { 256 },
            width: if is_video { 640 << 16 } else { 0 },
            height: if is_video { 360 << 16 } else { 0 },
        },
        edts_box: Some(EditBox { elst_box: EditListBox { media_time: -3 } }),
        mdia_box: MediaBox {
            mdhd_box: MediaHeaderBox { timescale: 48000, duration: 5 },
            hdlr_box: HandlerReferenceBox {
                handler_type: if is_video { VIDE } else { SOUN },
                name: if is_video { b"Video Handler".to_vec() } else { b"Sound Handler".to_vec() },
            },
            minf_box: MediaInformationBox {
                vmhd_box: if is_video { Some(VideoMediaHeaderBox) } else { None },
                smhd_box: if is_video { None } else { Some(SoundMediaHeaderBox) },
                stbl_box: SampleTableBox {
                    stsd_box: SampleDescriptionBox {
                        sample_entries: vec![if is_video {
                            SampleEntry::Avc(our_avc_entry())
                        } else {
                            SampleEntry::Aac(our_aac_entry())
                        }],
                    },
                },
            },
        },
    }
}

#[test]
fn file_type_box_is_what_mse_fmp4_writes() {
    assert_eq!(encode_ftyp(), written(&mse_fmp4::fmp4::FileTypeBox));
}

#[test]
fn movie_header_is_what_mse_fmp4_writes() {
    let ours = MovieHeaderBox { timescale: 90000, duration: 0x0102_0304 }.encode();
    let theirs = written(&mse_fmp4::fmp4::MovieHeaderBox { timescale: 90000, duration: 0x0102_0304 });
    assert_eq!(ours, theirs);
    assert_eq!(ours.len(), 108);
}

#[test]
fn media_header_is_what_mse_fmp4_writes() {
    let ours = MediaHeaderBox { timescale: 44100, duration: 9 }.encode();
    let theirs = written(&mse_fmp4::fmp4::MediaHeaderBox { timescale: 44100, duration: 9 });
    assert_eq!(ours, theirs);
}

#[test]
fn track_header_is_what_mse_fmp4_writes() {
    assert_eq!(our_track(false).tkhd_box.encode(), written(&their_track(false).tkhd_box));
    assert_eq!(our_track(true).tkhd_box.encode(), written(&their_track(true).tkhd_box));
}

#[test]
fn edit_box_is_what_mse_fmp4_writes() {
    let ours = EditBox { elst_box: EditListBox { media_time: -3 } }.encode();
    assert_eq!(ours, written(&their_track(false).edts_box));
}

#[test]
fn handler_reference_is_what_mse_fmp4_writes() {
    assert_eq!(our_track(false).mdia_box.hdlr_box.encode(), written(&their_track(false).mdia_box.hdlr_box));
    assert_eq!(our_track(true).mdia_box.hdlr_box.encode(), written(&their_track(true).mdia_box.hdlr_box));
}

#[test]
fn aac_sample_entry_is_what_mse_fmp4_writes() {
    let theirs = match their_aac_entry() {
        mse_fmp4::fmp4::SampleEntry::Aac(entry) => written(&entry),
        _ => unreachable!(),
    };
    assert_eq!(our_aac_entry().encode(), theirs);
    assert_eq!(SampleEntry::Aac(our_aac_entry()).encode(), theirs);
}

#[test]
fn es_descriptor_of_every_configuration_is_what_mse_fmp4_writes() {
    let profiles = [
        (AacProfile::Main, mse_fmp4::aac::AacProfile::Main),
        (AacProfile::Lc, mse_fmp4::aac::AacProfile::Lc),
        (AacProfile::Ssr, mse_fmp4::aac::AacProfile::Ssr),
        (AacProfile::Ltp, mse_fmp4::aac::AacProfile::Ltp),
    ];
    let frequencies = [
        (SamplingFrequency::Hz96000, mse_fmp4::aac::SamplingFrequency::Hz96000),
        (SamplingFrequency::Hz48000, mse_fmp4::aac::SamplingFrequency::Hz48000),
        (SamplingFrequency::Hz44100, mse_fmp4::aac::SamplingFrequency::Hz44100),
        (SamplingFrequency::Hz22050, mse_fmp4::aac::SamplingFrequency::Hz22050),
        (SamplingFrequency::Hz7350, mse_fmp4::aac::SamplingFrequency::Hz7350),
    ];
    let channels = [
        (ChannelConfiguration::OneChannel, mse_fmp4::aac::ChannelConfiguration::OneChannel),
        (ChannelConfiguration::TwoChannels, mse_fmp4::aac::ChannelConfiguration::TwoChannels),
        (ChannelConfiguration::EightChannels, mse_fmp4::aac::ChannelConfiguration::EightChannels),
    ];
    for (profile, their_profile) in profiles.iter() {
        for (frequency, their_frequency) in frequencies.iter() {
            for (channel_configuration, their_channels) in channels.iter() {
                let ours = Mpeg4EsDescriptorBox {
                    profile: *profile,
                    frequency: *frequency,
                    channel_configuration: *channel_configuration,
                };
                let theirs = mse_fmp4::fmp4::Mpeg4EsDescriptorBox {
                    profile: *their_profile,
                    frequency: *their_frequency,
                    channel_configuration: *their_channels,
                };
                assert_eq!(ours.encode(), written(&theirs));
            }
        }
    }
}

#[test]
fn avc_sample_entry_is_what_mse_fmp4_writes() {
    let theirs = match their_avc_entry() {
        mse_fmp4::fmp4::SampleEntry::Avc(entry) => written(&entry),
        _ => unreachable!(),
    };
    assert_eq!(our_avc_entry().encode(), theirs);
    assert_eq!(our_avc_entry().avcc_box.encode().len(), 8 + record_bytes().len());
}

#[test]
fn track_is_what_mse_fmp4_writes() {
    assert_eq!(our_track(false).encode(), written(&their_track(false)));
    assert_eq!(our_track(true).encode(), written(&their_track(true)));
    assert_eq!(our_track(true).mdia_box.encode(), written(&their_track(true).mdia_box));
    assert_eq!(
        our_track(false).mdia_box.minf_box.encode(),
        written(&their_track(false).mdia_box.minf_box)
    );
    assert_eq!(
        our_track(false).mdia_box.minf_box.stbl_box.encode(),
        written(&their_track(false).mdia_box.minf_box.stbl_box)
    );
    assert_eq!(
        our_track(true).mdia_box.minf_box.stbl_box.stsd_box.encode(),
        written(&their_track(true).mdia_box.minf_box.stbl_box.stsd_box)
    );
}

#[test]
fn track_extends_is_what_mse_fmp4_writes() {
    let ours = TrackExtendsBox {
        track_id: 1,
        default_sample_description_index: 1,
        default_sample_duration: 7,
        default_sample_size: 8,
        default_sample_flags: 9,
    };
    let mut theirs = mse_fmp4::fmp4::TrackExtendsBox::new(true);
    theirs.default_sample_duration = 7;
    theirs.default_sample_size = 8;
    theirs.default_sample_flags = 9;
    assert_eq!(ours.encode(), written(&theirs));
}

#[test]
fn initialization_segment_is_what_mse_fmp4_writes() {
    let ours = InitializationSegment {
        moov_box: MovieBox {
            mvhd_box: MovieHeaderBox { timescale: 1000, duration: 0 },
            trak_boxes: vec![our_track(true), our_track(false)],
            mvex_box: MovieExtendsBox {
                mehd_box: Some(MovieExtendsHeaderBox { fragment_duration: 12 }),
                trex_boxes: vec![
                    TrackExtendsBox {
                        track_id: 1,
                        default_sample_description_index: 1,
                        default_sample_duration: 0,
                        default_sample_size: 0,
                        default_sample_flags: 0,
                    },
                    TrackExtendsBox {
                        track_id: 2,
                        default_sample_description_index: 1,
                        default_sample_duration: 0,
                        default_sample_size: 0,
                        default_sample_flags: 0,
                    },
                ],
            },
        },
    };
    let theirs = mse_fmp4::fmp4::InitializationSegment {
        ftyp_box: mse_fmp4::fmp4::FileTypeBox,
        moov_box: mse_fmp4::fmp4::MovieBox {
            mvhd_box: mse_fmp4::fmp4::MovieHeaderBox { timescale: 1000, duration: 0 },
            trak_boxes: vec![their_track(true), their_track(false)],
            mvex_box: mse_fmp4::fmp4::MovieExtendsBox {
                mehd_box: Some(mse_fmp4::fmp4::MovieExtendsHeaderBox { fragment_duration: 12 }),
                trex_boxes: vec![
                    mse_fmp4::fmp4::TrackExtendsBox::new(true),
                    mse_fmp4::fmp4::TrackExtendsBox::new(false),
                ],
            },
        },
    };
    let mut expected = Vec::new();
    theirs.write_to(&mut expected).unwrap();
    assert_eq!(ours.encode(), expected);
    assert_eq!(ours.moov_box.encode(), written(&theirs.moov_box));
    assert_eq!(ours.moov_box.mvex_box.encode(), written(&theirs.moov_box.mvex_box));
}

fn our_flags() -> SampleFlags {
    SampleFlags {
        is_leading: 1,
        sample_depends_on: 2,
        sample_is_depended_on: 3,
        sample_has_redundancy: 1,
        sample_padding_value: 5,
        sample_is_non_sync_sample: true,
        sample_degradation_priority: 0xabcd,
    }
}

fn their_flags() -> mse_fmp4::fmp4::SampleFlags {
    mse_fmp4::fmp4::SampleFlags {
        is_leading: 1,
        sample_depends_on: 2,
        sample_is_depdended_on: 3,
        sample_has_redundancy: 1,
        sample_padding_value: 5,
        sample_is_non_sync_sample: true,
        sample_degradation_priority: 0xabcd,
    }
}

#[test]
fn sample_flags_word() {
    assert_eq!(our_flags().to_u32(), (1 << 26) | (2 << 24) | (3 << 22) | (1 << 20) | (5 << 17) | (1 << 16) | 0xabcd);
    let none = SampleFlags {
        is_leading: 0,
        sample_depends_on: 1,
        sample_is_depended_on: 0,
        sample_has_redundancy: 0,
        sample_padding_value: 0,
        sample_is_non_sync_sample: false,
        sample_degradation_priority: 0,
    };
    assert_eq!(none.to_u32(), 0x0100_0000);
}

#[test]
fn sample_box_flags() {
    let all = Sample { duration: Some(1), size: Some(2), flags: Some(our_flags()), composition_time_offset: Some(-1) };
    assert_eq!(all.to_box_flags(), 0xf00);
    let none = Sample { duration: None, size: None, flags: None, composition_time_offset: None };
    assert_eq!(none.to_box_flags(), 0);
    let audio = Sample { duration: Some(1), size: Some(2), flags: None, composition_time_offset: None };
    assert_eq!(audio.to_box_flags(), 0x300);
}

#[test]
fn track_run_is_what_mse_fmp4_writes() {
    let ours = TrackRunBox {
        data_offset: Some(-5),
        first_sample_flags: Some(our_flags()),
        samples: vec![
            Sample { duration: Some(10), size: Some(20), flags: Some(our_flags()), composition_time_offset: Some(-30) },
            Sample { duration: Some(11), size: Some(21), flags: Some(our_flags()), composition_time_offset: Some(31) },
        ],
    };
    let theirs = mse_fmp4::fmp4::TrackRunBox {
        data_offset: Some(-5),
        first_sample_flags: Some(their_flags()),
        samples: vec![
            mse_fmp4::fmp4::Sample { duration: Some(10), size: Some(20), flags: Some(their_flags()), composition_time_offset: Some(-30) },
            mse_fmp4::fmp4::Sample { duration: Some(11), size: Some(21), flags: Some(their_flags()), composition_time_offset: Some(31) },
        ],
    };
    assert_eq!(ours.encode(), written(&theirs));

    let ours = TrackRunBox { data_offset: None, first_sample_flags: None, samples: Vec::new() };
    let theirs = mse_fmp4::fmp4::TrackRunBox { data_offset: None, first_sample_flags: None, samples: Vec::new() };
    assert_eq!(ours.encode(), written(&theirs));
}

#[test]
fn track_fragment_header_is_what_mse_fmp4_writes() {
    let ours = TrackFragmentHeaderBox {
        track_id: 1,
        duration_is_empty: true,
        default_base_is_moof: false,
        base_data_offset: Some(0x0102_0304_0506_0708),
        sample_description_index: Some(3),
        default_sample_duration: Some(4),
        default_sample_size: Some(5),
        default_sample_flags: Some(our_flags()),
    };
    let mut theirs = mse_fmp4::fmp4::TrackFragmentBox::new(true).tfhd_box;
    theirs.duration_is_empty = true;
    theirs.default_base_is_moof = false;
    theirs.base_data_offset = Some(0x0102_0304_0506_0708);
    theirs.sample_description_index = Some(3);
    theirs.default_sample_duration = Some(4);
    theirs.default_sample_size = Some(5);
    theirs.default_sample_flags = Some(their_flags());
    assert_eq!(ours.encode(), written(&theirs));
}

#[test]
fn media_segment_is_what_mse_fmp4_writes() {
    let ours = MediaSegment {
        moof_box: MovieFragmentBox {
            mfhd_box: MovieFragmentHeaderBox { sequence_number: 42 },
            traf_boxes: vec![
                TrackFragmentBox {
                    tfhd_box: TrackFragmentHeaderBox {
                        track_id: 2,
                        duration_is_empty: false,
                        default_base_is_moof: true,
                        base_data_offset: None,
                        sample_description_index: None,
                        default_sample_duration: None,
                        default_sample_size: None,
                        default_sample_flags: None,
                    },
                    tfdt_box: Some(TrackFragmentBaseMediaDecodeTimeBox { base_media_decode_time: 0 }),
                    trun_box: TrackRunBox {
                        data_offset: Some(100),
                        first_sample_flags: None,
                        samples: vec![Sample { duration: Some(23), size: Some(3), flags: None, composition_time_offset: None }],
                    },
                },
            ],
        },
        mdat_boxes: vec![MediaDataBox { data: vec![1, 2, 3] }, MediaDataBox { data: Vec::new() }],
    };
    let mut traf = mse_fmp4::fmp4::TrackFragmentBox::new(false);
    traf.trun_box.data_offset = Some(100);
    traf.trun_box.samples.push(mse_fmp4::fmp4::Sample {
        duration: Some(23),
        size: Some(3),
        flags: None,
        composition_time_offset: None,
    });
    let theirs = mse_fmp4::fmp4::MediaSegment {
        moof_box: mse_fmp4::fmp4::MovieFragmentBox {
            mfhd_box: mse_fmp4::fmp4::MovieFragmentHeaderBox { sequence_number: 42 },
            traf_boxes: vec![traf],
        },
        mdat_boxes: vec![
            mse_fmp4::fmp4::MediaDataBox { data: vec![1, 2, 3] },
            mse_fmp4::fmp4::MediaDataBox { data: Vec::new() },
        ],
    };
    let mut expected = Vec::new();
    theirs.write_to(&mut expected).unwrap();
    assert_eq!(ours.encode(), expected);
    assert_eq!(ours.moof_box.box_size(), theirs.moof_box.box_size().unwrap());
    assert_eq!(ours.moof_box.box_size() as usize, ours.moof_box.encode().len());
}

#[test]
fn decode_time_box_holds_the_time() {
    let ours = TrackFragmentBaseMediaDecodeTimeBox { base_media_decode_time: 0x0a0b_0c0d }.encode();
    assert_eq!(ours, vec![0, 0, 0, 16, b't', b'f', b'd', b't', 0, 0, 0, 0, 0x0a, 0x0b, 0x0c, 0x0d]);
}

#[test]
fn track_fragment_without_decode_time() {
    let traf = TrackFragmentBox {
        tfhd_box: TrackFragmentHeaderBox {
            track_id: 1,
            duration_is_empty: false,
            default_base_is_moof: true,
            base_data_offset: None,
            sample_description_index: None,
            default_sample_duration: None,
            default_sample_size: None,
            default_sample_flags: None,
        },
        tfdt_box: None,
        trun_box: TrackRunBox { data_offset: None, first_sample_flags: None, samples: Vec::new() },
    };
    let bytes = traf.encode();
    assert_eq!(bytes.len(), 8 + 16 + 16);
    assert_eq!(&bytes[4..8], b"traf");
    assert_eq!(&bytes[28..32], b"trun");
}

#[test]
fn fields_are_written_most_significant_byte_first() {
    let mut out = vec![0xaa];
    put_u8(&mut out, 1);
    put_u16(&mut out, 0x0203);
    put_u32(&mut out, 0x0405_0607);
    put_u64(&mut out, 0x0809_0a0b_0c0d_0e0f);
    put_i16(&mut out, -2);
    put_i32(&mut out, -3);
    put_opt_u32(&mut out, None);
    put_opt_u32(&mut out, Some(0x1011_1213));
    put_zeroes(&mut out, 3);
    put_bytes(&mut out, &vec![0x14, 0x15]);
    assert_eq!(
        out,
        vec![
            0xaa, 1, 2, 3, 4, 5, 6, 7, 8, 9, 10, 11, 12, 13, 14, 15, 0xff, 0xfe, 0xff, 0xff, 0xff,
            0xfd, 0x10, 0x11, 0x12, 0x13, 0, 0, 0, 0x14, 0x15
        ]
    );
}

#[test]
fn box_framing_counts_the_header() {
    assert_eq!(plain_box_of(0x6d64_6174, vec![7, 8]), vec![0, 0, 0, 10, b'm', b'd', b'a', b't', 7, 8]);
    assert_eq!(
        full_box_of(0x7472_756e, 1, 0x000301, vec![9]),
        vec![0, 0, 0, 13, b't', b'r', b'u', b'n', 1, 0, 3, 1, 9]
    );
    assert_eq!(plain_box_of(0x6672_6565, Vec::new()), vec![0, 0, 0, 8, b'f', b'r', b'e', b'e']);
}
