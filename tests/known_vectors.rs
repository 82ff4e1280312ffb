use xorshift_crc::crc::{HashCRC16, HashCRC32};
use xorshift_crc::random::Random;

#[test]
fn random() {
    let mut r = Random::builder().add_seed(200).build();
    let target32 = [
        940615229u32,
        2135984020u32,
        799482374u32,
        3072700755u32,
        179947716u32,
        4046357024u32,
        3884923153u32,
        2109383578u32,
        3112286977u32,
        1010504083u32,
        2732777652u32,
        183247105u32,
        3187788526u32,
        1515381556u32,
        4009774986u32,
        2224004930u32,
        879321991u32,
        4193217917u32,
        343806421u32,
        3975408023u32,
        2482625237u32,
        301975890u32,
        4125852161u32,
        2250732154u32,
        3679797017u32,
        873449592u32,
        2640166770u32,
        542423553u32,
        1384899813u32,
        411937476u32,
        1750802568u32,
        3982105392u32,
        3774572210u32,
        2505386979u32,
        616236705u32,
        419764893u32,
        586162681u32,
        516299895u32,
        3803488000u32,
        3545538617u32,
        1879616579u32,
        1577264017u32,
        403307470u32,
        1848296862u32,
        1534400172u32,
        472754680u32,
        1269691960u32,
        1939066086u32,
        2157999182u32,
        4055068619u32,
        3582680051u32,
        949111128u32,
        3138603008u32,
        3518277022u32,
        1584343192u32,
        4095570564u32,
        3580852047u32,
        2709757993u32,
        2257549161u32,
        2568600686u32,
        929199373u32,
        2338068768u32,
        1989477149u32,
        574307181u32,
        114681914u32,
        1831560409u32,
        3010989962u32,
        1214491355u32,
        3781038037u32,
        3613766283u32,
        2752705458u32,
        4050821273u32,
        3762502085u32,
        440942252u32,
        703910196u32,
        1306970875u32,
        3029491603u32,
        4017400563u32,
        1619442520u32,
        457970849u32,
        1023721116u32,
        2003675389u32,
        577012019u32,
        1509322946u32,
        1092539710u32,
        1529788320u32,
        1564854511u32,
        3084899301u32,
        14636805u32,
        778203913u32,
        1561576602u32,
        337277990u32,
        4001853151u32,
        3544232509u32,
        280267739u32,
        3620239023u32,
        49023775u32,
        3572203557u32,
        1622483760u32,
        4099693703u32,
    ];
    for (i, t) in target32.iter().enumerate() {
        let c = r.random_u32();
        assert_eq!(*t, c, "failed on iteration for u32 {}, value {} expected {}", i, c, *t);
    }
    let target64 = [
        10847489112624616892u64,
        15532169589028003808u64,
        522460580994996160u64,
        16620067751845103675u64,
        4456409969820593901u64,
        8963490091968335832u64,
        9253985981693561054u64,
        2504731770550627465u64,
        13248834308077695558u64,
        12307222015852827267u64,
        15547150253993190132u64,
        6101328212770838514u64,
        3445759905466744748u64,
        11247562374786347988u64,
        16366931235963132777u64,
        7498898646939598995u64,
        5949231431788493788u64,
        6998944291204813039u64,
        1581706618998049075u64,
        4971029806265630877u64,
        16565850303456968266u64,
        8263612707705129561u64,
        7840251080397890092u64,
        8624264358126043091u64,
        10857920063153809534u64,
        13284139937645227u64,
        3802845780505898920u64,
        12933765041107881497u64,
        7221725002021176160u64,
        16109540834429657828u64,
        15242478733591555124u64,
        3985790565777332266u64,
        8364618671786447079u64,
        17325519578071271919u64,
        15855114090605589580u64,
        11470738557436465417u64,
        1910447191452640977u64,
        6808341487920819357u64,
        15689439030096460707u64,
        5510905548822614448u64,
        3847565980073326771u64,
        4439800234737467480u64,
        5054652954323072003u64,
        1923600431260956840u64,
        16192183125892460282u64,
        15483204203833072635u64,
        14640938891008779512u64,
        11318856706784487854u64,
        14155256466950065872u64,
        8174414645794959318u64,
        3599649051524949981u64,
        7164084849813784530u64,
        5810817520492259321u64,
        5715080020922712784u64,
        13803516900899567643u64,
        8570589997123602301u64,
        5104129592194863859u64,
        14881272346259536536u64,
        3354464620640059108u64,
        6161532404798531905u64,
        17385371328713758030u64,
        16478946927158009373u64,
        1270549347064452729u64,
        2766718275080166715u64,
        15360757430748695037u64,
        10377094315489647282u64,
        872639520271951194u64,
        12141872232015130142u64,
        2047186334847388610u64,
        12210279142197144321u64,
        10065899005513058751u64,
        6689796369747090274u64,
        12666216430932330826u64,
        12591954129292306222u64,
        6678253365619721355u64,
        14691708707980469055u64,
        16811429300932806174u64,
        3529625347048573750u64,
        17389091706653089668u64,
        8094477512470575982u64,
        2861071402895042949u64,
        11311568000471495312u64,
        14662194338639189690u64,
        8429720118578957876u64,
        1736428763034365373u64,
        1804509210541959147u64,
        2939020118371122520u64,
        10467763324018025460u64,
        4298526844657582901u64,
        13187536842642633908u64,
        5245478180735065818u64,
        13562971066631613428u64,
        6399786046628032014u64,
        963428267248134003u64,
        5707646310281283170u64,
        14988096148561203653u64,
        9845778767523179903u64,
        7263753957127673560u64,
        13799151619255487315u64,
        8641745092524991827u64,
    ];
    for (i, t) in target64.iter().enumerate() {
        let c = r.random_u64();
        assert_eq!(*t, c, "failed on iteration for u32 {}, value {} expected {}", i, c, *t);
    }
}

#[test]
fn hash16() {
    let mut hasher = HashCRC16::default();
    let bytes: Vec<u8> = (0u8..=255).collect();
    assert_eq!(47827, hasher.calc_hash(&bytes));
}
#[test]
fn hash32() {
    let mut hasher = HashCRC32::default();
    let bytes: Vec<u8> = (0u8..=255).collect();
    assert_eq!(688229491, hasher.calc_hash(&bytes));
}
