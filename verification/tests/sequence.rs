use vibe_lights::importer::{XmlEvent, XmlTag};
use vibe_lights::sequence::{
    is_float_text, is_iso_duration, parse_sequence_xml, sequence_from_events, ColorText, StopText,
};

const TIM: &[u8] = br#"<?xml version="1.0" encoding="utf-8"?>
<TimedSequenceData xmlns:i="http://www.w3.org/2001/XMLSchema-instance">
  <Length>PT1M30S</Length>
  <_dataModels xmlns:d1p1="http://schemas.microsoft.com/2003/10/Serialization/Arrays">
    <d1p1:anyType i:type="d2p1:PulseData" xmlns:d2p1="VixenModules.Effect.Pulse">
      <ModuleInstanceId>inst-1</ModuleInstanceId>
      <ModuleTypeId>type-pulse</ModuleTypeId>
      <d2p1:ColorGradient>
        <d3p1:_colors>
          <d3p1:ColorPoint>
            <d3p1:_color><d3p1:_x>95.047</d3p1:_x><d3p1:_y>100</d3p1:_y><d3p1:_z>108.883</d3p1:_z></d3p1:_color>
            <d3p1:_position>0</d3p1:_position>
          </d3p1:ColorPoint>
        </d3p1:_colors>
      </d2p1:ColorGradient>
      <d2p1:LevelCurve>
        <d3p1:Points><d3p1:PointPair><d3p1:X>0</d3p1:X><d3p1:Y>100</d3p1:Y></d3p1:PointPair></d3p1:Points>
      </d2p1:LevelCurve>
    </d1p1:anyType>
    <d1p1:anyType i:type="d2p1:SetLevelData">
      <ModuleInstanceId>inst-2</ModuleInstanceId>
      <d2p1:color><d2p1:_r>1</d2p1:_r><d2p1:_g>0</d2p1:_g><d2p1:_b>0.5</d2p1:_b></d2p1:color>
      <d2p1:level>0.75</d2p1:level>
      <d2p1:ReverseSpin>true</d2p1:ReverseSpin>
      <d2p1:Direction>Up</d2p1:Direction>
    </d1p1:anyType>
  </_dataModels>
  <_effectNodeSurrogates>
    <EffectNodeSurrogate>
      <ChannelNodeReferenceSurrogates>
        <ChannelNodeReferenceSurrogate><NodeId>node-a</NodeId></ChannelNodeReferenceSurrogate>
      </ChannelNodeReferenceSurrogates>
      <InstanceId>inst-1</InstanceId>
      <StartTime>PT1.5S</StartTime>
      <TimeSpan>PT2S</TimeSpan>
      <TypeId>type-pulse</TypeId>
    </EffectNodeSurrogate>
    <EffectNodeSurrogate>
      <InstanceId>inst-9</InstanceId>
      <TypeId>type-pulse</TypeId>
      <TimeSpan>PT1S</TimeSpan>
    </EffectNodeSurrogate>
    <EffectNodeSurrogate>
      <InstanceId>inst-2</InstanceId>
      <TargetNodes>a; b ;</TargetNodes>
      <TimeSpan>PTxS</TimeSpan>
    </EffectNodeSurrogate>
    <EffectNodeSurrogate>
      <InstanceId>nothing-known</InstanceId>
    </EffectNodeSurrogate>
  </_effectNodeSurrogates>
  <Length>not a duration</Length>
  <_mediaSurrogates><MediaSurrogate><FilePath>song.mp3</FilePath></MediaSurrogate></_mediaSurrogates>
</TimedSequenceData>"#;

fn s(t: &str) -> String {
    t.to_string()
}

#[test]
fn sequence_length_and_media() {
    let seq = parse_sequence_xml(TIM).unwrap();
    // The second <Length> does not read as a duration and is passed over.
    assert_eq!(seq.length, Some(s("PT1M30S")));
    assert_eq!(seq.audio_file, Some(s("song.mp3")));
    assert_eq!(seq.effects.len(), 4);
}

#[test]
fn sequence_effect_resolved_by_instance() {
    let seq = parse_sequence_xml(TIM).unwrap();
    let e = &seq.effects[0];
    assert_eq!(e.class_name, "Pulse");
    assert_eq!(e.start, Some(s("PT1.5S")));
    assert_eq!(e.duration, Some(s("PT2S")));
    assert_eq!(e.targets, vec![s("node-a")]);
    let white = ColorText::Xyz(s("95.047"), s("100"), s("108.883"));
    assert_eq!(e.color, Some(white.clone()));
    let g = e.gradient.as_ref().unwrap();
    assert_eq!(g.stops, vec![StopText { position: Some(s("0")), color: Some(white) }]);
    assert_eq!(e.intensity_curve.as_ref().unwrap().points, vec![(s("0"), s("100"))]);
    assert!(e.movement_curve.is_none());
    assert!(e.level.is_none());
}

#[test]
fn sequence_effect_resolved_by_type() {
    let seq = parse_sequence_xml(TIM).unwrap();
    let e = &seq.effects[1];
    // No model has this instance id: the class, curve and gradient come from
    // the module type id; the colour is stored by instance only.
    assert_eq!(e.class_name, "Pulse");
    assert!(e.color.is_none());
    assert!(e.gradient.is_some());
    assert_eq!(e.intensity_curve.as_ref().unwrap().points, vec![(s("0"), s("100"))]);
    assert_eq!(e.start, None);
    assert_eq!(e.duration, Some(s("PT1S")));
}

#[test]
fn sequence_direct_colour_and_settings() {
    let seq = parse_sequence_xml(TIM).unwrap();
    let e = &seq.effects[2];
    assert_eq!(e.class_name, "SetLevel");
    assert_eq!(e.color, Some(ColorText::Rgb(s("1"), s("0"), s("0.5"))));
    assert_eq!(e.level, Some(s("0.75")));
    assert_eq!(e.reverse_spin, Some(true));
    assert_eq!(e.direction, Some(s("Up")));
    assert_eq!(e.targets, vec![s("a"), s("b")]);
    // "PTxS" does not read as a duration.
    assert_eq!(e.duration, None);
}

#[test]
fn sequence_unknown_effect_is_solid() {
    let seq = parse_sequence_xml(TIM).unwrap();
    let e = &seq.effects[3];
    assert_eq!(e.class_name, "Solid");
    assert!(e.color.is_none() && e.gradient.is_none() && e.targets.is_empty());
}

#[test]
fn sequence_malformed_xml_is_an_error() {
    assert!(parse_sequence_xml(b"<a><b></a>").is_err());
}

#[test]
fn sequence_attribute_timing_and_colour() {
    let tag = |n: &str, a: &[(&str, &str)]| XmlTag {
        name: n.to_string(),
        attributes: a.iter().map(|(k, v)| (k.to_string(), v.to_string())).collect(),
    };
    let events = vec![
        XmlEvent::Start(tag("EffectNodeSurrogates", &[])),
        XmlEvent::Start(tag(
            "EffectNodeSurrogate",
            &[("startTime", "PT3S"), ("duration", "bad"), ("TypeId", "t"), ("InstanceId", "i")],
        )),
        XmlEvent::Empty(tag("x:Color", &[("X", "1"), ("Y", "2"), ("Z", "3")])),
        XmlEvent::Empty(tag("Color", &[("X", "1"), ("Y", "oops"), ("Z", "3")])),
        XmlEvent::End("EffectNodeSurrogate".to_string()),
        XmlEvent::Eof,
        XmlEvent::Start(tag("EffectNodeSurrogate", &[])),
        XmlEvent::End("EffectNodeSurrogate".to_string()),
    ];
    let seq = sequence_from_events(&events);
    assert_eq!(seq.effects.len(), 1);
    let e = &seq.effects[0];
    assert_eq!(e.start, Some(s("PT3S")));
    assert_eq!(e.duration, None);
    assert_eq!(e.color, Some(ColorText::Xyz(s("1"), s("2"), s("3"))));
}

#[test]
fn float_texts_follow_std() {
    for t in ["1", "-1.5e3", ".5", "5.", "inf", "+NaN", "Infinity", "1E-7", "0.001", "95.047"] {
        assert!(is_float_text(t), "{t}");
        assert!(t.parse::<f64>().is_ok(), "{t}");
    }
    for t in ["", ".", "1e", "e5", " 1", "1,5", "1e+", "--1", "in", "0x10", "1.2.3"] {
        assert!(!is_float_text(t), "{t}");
        assert!(t.parse::<f64>().is_err(), "{t}");
    }
}

#[test]
fn iso_durations_read() {
    for t in ["PT1M53.606S", "PT5M30.500S", "PT30S", "PT1H", "P0DT0H5M30.500S", "P1DT0H0M0S", "PT0S", " PT0.001S ", "P"] {
        assert!(is_iso_duration(t), "{t}");
    }
    for t in ["not a duration", "", "PT1XS", "1S", "PxD"] {
        assert!(!is_iso_duration(t), "{t}");
    }
}
