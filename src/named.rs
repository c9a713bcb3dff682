//! The named colors of CSS Color Module Level 4.
use vstd::prelude::*;
use crate::text::equals_str;

verus! {

/// The 8-bit RGB triple of a named color, if `s` is one of the 148 names.
pub open spec fn named_rgb(s: Seq<char>) -> Option<(u8, u8, u8)> {
    if s == "aliceblue"@ {
        Some((240, 248, 255))
    } else if s == "antiquewhite"@ {
        Some((250, 235, 215))
    } else if s == "aqua"@ {
        Some((0, 255, 255))
    } else if s == "aquamarine"@ {
        Some((127, 255, 212))
    } else if s == "azure"@ {
        Some((240, 255, 255))
    } else if s == "beige"@ {
        Some((245, 245, 220))
    } else if s == "bisque"@ {
        Some((255, 228, 196))
    } else if s == "black"@ {
        Some((0, 0, 0))
    } else if s == "blanchedalmond"@ {
        Some((255, 235, 205))
    } else if s == "blue"@ {
        Some((0, 0, 255))
    } else if s == "blueviolet"@ {
        Some((138, 43, 226))
    } else if s == "brown"@ {
        Some((165, 42, 42))
    } else if s == "burlywood"@ {
        Some((222, 184, 135))
    } else if s == "cadetblue"@ {
        Some((95, 158, 160))
    } else if s == "chartreuse"@ {
        Some((127, 255, 0))
    } else if s == "chocolate"@ {
        Some((210, 105, 30))
    } else if s == "coral"@ {
        Some((255, 127, 80))
    } else if s == "cornflowerblue"@ {
        Some((100, 149, 237))
    } else if s == "cornsilk"@ {
        Some((255, 248, 220))
    } else if s == "crimson"@ {
        Some((220, 20, 60))
    } else if s == "cyan"@ {
        Some((0, 255, 255))
    } else if s == "darkblue"@ {
        Some((0, 0, 139))
    } else if s == "darkcyan"@ {
        Some((0, 139, 139))
    } else if s == "darkgoldenrod"@ {
        Some((184, 134, 11))
    } else if s == "darkgray"@ {
        Some((169, 169, 169))
    } else if s == "darkgreen"@ {
        Some((0, 100, 0))
    } else if s == "darkgrey"@ {
        Some((169, 169, 169))
    } else if s == "darkkhaki"@ {
        Some((189, 183, 107))
    } else if s == "darkmagenta"@ {
        Some((139, 0, 139))
    } else if s == "darkolivegreen"@ {
        Some((85, 107, 47))
    } else if s == "darkorange"@ {
        Some((255, 140, 0))
    } else if s == "darkorchid"@ {
        Some((153, 50, 204))
    } else if s == "darkred"@ {
        Some((139, 0, 0))
    } else if s == "darksalmon"@ {
        Some((233, 150, 122))
    } else if s == "darkseagreen"@ {
        Some((143, 188, 143))
    } else if s == "darkslateblue"@ {
        Some((72, 61, 139))
    } else if s == "darkslategray"@ {
        Some((47, 79, 79))
    } else if s == "darkslategrey"@ {
        Some((47, 79, 79))
    } else if s == "darkturquoise"@ {
        Some((0, 206, 209))
    } else if s == "darkviolet"@ {
        Some((148, 0, 211))
    } else if s == "deeppink"@ {
        Some((255, 20, 147))
    } else if s == "deepskyblue"@ {
        Some((0, 191, 255))
    } else if s == "dimgray"@ {
        Some((105, 105, 105))
    } else if s == "dimgrey"@ {
        Some((105, 105, 105))
    } else if s == "dodgerblue"@ {
        Some((30, 144, 255))
    } else if s == "firebrick"@ {
        Some((178, 34, 34))
    } else if s == "floralwhite"@ {
        Some((255, 250, 240))
    } else if s == "forestgreen"@ {
        Some((34, 139, 34))
    } else if s == "fuchsia"@ {
        Some((255, 0, 255))
    } else if s == "gainsboro"@ {
        Some((220, 220, 220))
    } else if s == "ghostwhite"@ {
        Some((248, 248, 255))
    } else if s == "gold"@ {
        Some((255, 215, 0))
    } else if s == "goldenrod"@ {
        Some((218, 165, 32))
    } else if s == "gray"@ {
        Some((128, 128, 128))
    } else if s == "green"@ {
        Some((0, 128, 0))
    } else if s == "greenyellow"@ {
        Some((173, 255, 47))
    } else if s == "grey"@ {
        Some((128, 128, 128))
    } else if s == "honeydew"@ {
        Some((240, 255, 240))
    } else if s == "hotpink"@ {
        Some((255, 105, 180))
    } else if s == "indianred"@ {
        Some((205, 92, 92))
    } else if s == "indigo"@ {
        Some((75, 0, 130))
    } else if s == "ivory"@ {
        Some((255, 255, 240))
    } else if s == "khaki"@ {
        Some((240, 230, 140))
    } else if s == "lavender"@ {
        Some((230, 230, 250))
    } else if s == "lavenderblush"@ {
        Some((255, 240, 245))
    } else if s == "lawngreen"@ {
        Some((124, 252, 0))
    } else if s == "lemonchiffon"@ {
        Some((255, 250, 205))
    } else if s == "lightblue"@ {
        Some((173, 216, 230))
    } else if s == "lightcoral"@ {
        Some((240, 128, 128))
    } else if s == "lightcyan"@ {
        Some((224, 255, 255))
    } else if s == "lightgoldenrodyellow"@ {
        Some((250, 250, 210))
    } else if s == "lightgray"@ {
        Some((211, 211, 211))
    } else if s == "lightgreen"@ {
        Some((144, 238, 144))
    } else if s == "lightgrey"@ {
        Some((211, 211, 211))
    } else if s == "lightpink"@ {
        Some((255, 182, 193))
    } else if s == "lightsalmon"@ {
        Some((255, 160, 122))
    } else if s == "lightseagreen"@ {
        Some((32, 178, 170))
    } else if s == "lightskyblue"@ {
        Some((135, 206, 250))
    } else if s == "lightslategray"@ {
        Some((119, 136, 153))
    } else if s == "lightslategrey"@ {
        Some((119, 136, 153))
    } else if s == "lightsteelblue"@ {
        Some((176, 196, 222))
    } else if s == "lightyellow"@ {
        Some((255, 255, 224))
    } else if s == "lime"@ {
        Some((0, 255, 0))
    } else if s == "limegreen"@ {
        Some((50, 205, 50))
    } else if s == "linen"@ {
        Some((250, 240, 230))
    } else if s == "magenta"@ {
        Some((255, 0, 255))
    } else if s == "maroon"@ {
        Some((128, 0, 0))
    } else if s == "mediumaquamarine"@ {
        Some((102, 205, 170))
    } else if s == "mediumblue"@ {
        Some((0, 0, 205))
    } else if s == "mediumorchid"@ {
        Some((186, 85, 211))
    } else if s == "mediumpurple"@ {
        Some((147, 112, 219))
    } else if s == "mediumseagreen"@ {
        Some((60, 179, 113))
    } else if s == "mediumslateblue"@ {
        Some((123, 104, 238))
    } else if s == "mediumspringgreen"@ {
        Some((0, 250, 154))
    } else if s == "mediumturquoise"@ {
        Some((72, 209, 204))
    } else if s == "mediumvioletred"@ {
        Some((199, 21, 133))
    } else if s == "midnightblue"@ {
        Some((25, 25, 112))
    } else if s == "mintcream"@ {
        Some((245, 255, 250))
    } else if s == "mistyrose"@ {
        Some((255, 228, 225))
    } else if s == "moccasin"@ {
        Some((255, 228, 181))
    } else if s == "navajowhite"@ {
        Some((255, 222, 173))
    } else if s == "navy"@ {
        Some((0, 0, 128))
    } else if s == "oldlace"@ {
        Some((253, 245, 230))
    } else if s == "olive"@ {
        Some((128, 128, 0))
    } else if s == "olivedrab"@ {
        Some((107, 142, 35))
    } else if s == "orange"@ {
        Some((255, 165, 0))
    } else if s == "orangered"@ {
        Some((255, 69, 0))
    } else if s == "orchid"@ {
        Some((218, 112, 214))
    } else if s == "palegoldenrod"@ {
        Some((238, 232, 170))
    } else if s == "palegreen"@ {
        Some((152, 251, 152))
    } else if s == "paleturquoise"@ {
        Some((175, 238, 238))
    } else if s == "palevioletred"@ {
        Some((219, 112, 147))
    } else if s == "papayawhip"@ {
        Some((255, 239, 213))
    } else if s == "peachpuff"@ {
        Some((255, 218, 185))
    } else if s == "peru"@ {
        Some((205, 133, 63))
    } else if s == "pink"@ {
        Some((255, 192, 203))
    } else if s == "plum"@ {
        Some((221, 160, 221))
    } else if s == "powderblue"@ {
        Some((176, 224, 230))
    } else if s == "purple"@ {
        Some((128, 0, 128))
    } else if s == "rebeccapurple"@ {
        Some((102, 51, 153))
    } else if s == "red"@ {
        Some((255, 0, 0))
    } else if s == "rosybrown"@ {
        Some((188, 143, 143))
    } else if s == "royalblue"@ {
        Some((65, 105, 225))
    } else if s == "saddlebrown"@ {
        Some((139, 69, 19))
    } else if s == "salmon"@ {
        Some((250, 128, 114))
    } else if s == "sandybrown"@ {
        Some((244, 164, 96))
    } else if s == "seagreen"@ {
        Some((46, 139, 87))
    } else if s == "seashell"@ {
        Some((255, 245, 238))
    } else if s == "sienna"@ {
        Some((160, 82, 45))
    } else if s == "silver"@ {
        Some((192, 192, 192))
    } else if s == "skyblue"@ {
        Some((135, 206, 235))
    } else if s == "slateblue"@ {
        Some((106, 90, 205))
    } else if s == "slategray"@ {
        Some((112, 128, 144))
    } else if s == "slategrey"@ {
        Some((112, 128, 144))
    } else if s == "snow"@ {
        Some((255, 250, 250))
    } else if s == "springgreen"@ {
        Some((0, 255, 127))
    } else if s == "steelblue"@ {
        Some((70, 130, 180))
    } else if s == "tan"@ {
        Some((210, 180, 140))
    } else if s == "teal"@ {
        Some((0, 128, 128))
    } else if s == "thistle"@ {
        Some((216, 191, 216))
    } else if s == "tomato"@ {
        Some((255, 99, 71))
    } else if s == "turquoise"@ {
        Some((64, 224, 208))
    } else if s == "violet"@ {
        Some((238, 130, 238))
    } else if s == "wheat"@ {
        Some((245, 222, 179))
    } else if s == "white"@ {
        Some((255, 255, 255))
    } else if s == "whitesmoke"@ {
        Some((245, 245, 245))
    } else if s == "yellow"@ {
        Some((255, 255, 0))
    } else if s == "yellowgreen"@ {
        Some((154, 205, 50))
    } else {
        None
    }
}

/// Looks `s` up among the named colors; the name must be in lower case.
#[verifier::rlimit(50)]
pub fn lookup_named(s: &Vec<char>) -> (r: Option<(u8, u8, u8)>)
    ensures
        r == named_rgb(s@),
{
    if equals_str(s, "aliceblue") {
        return Some((240, 248, 255));
    }
    if equals_str(s, "antiquewhite") {
        return Some((250, 235, 215));
    }
    if equals_str(s, "aqua") {
        return Some((0, 255, 255));
    }
    if equals_str(s, "aquamarine") {
        return Some((127, 255, 212));
    }
    if equals_str(s, "azure") {
        return Some((240, 255, 255));
    }
    if equals_str(s, "beige") {
        return Some((245, 245, 220));
    }
    if equals_str(s, "bisque") {
        return Some((255, 228, 196));
    }
    if equals_str(s, "black") {
        return Some((0, 0, 0));
    }
    if equals_str(s, "blanchedalmond") {
        return Some((255, 235, 205));
    }
    if equals_str(s, "blue") {
        return Some((0, 0, 255));
    }
    if equals_str(s, "blueviolet") {
        return Some((138, 43, 226));
    }
    if equals_str(s, "brown") {
        return Some((165, 42, 42));
    }
    if equals_str(s, "burlywood") {
        return Some((222, 184, 135));
    }
    if equals_str(s, "cadetblue") {
        return Some((95, 158, 160));
    }
    if equals_str(s, "chartreuse") {
        return Some((127, 255, 0));
    }
    if equals_str(s, "chocolate") {
        return Some((210, 105, 30));
    }
    if equals_str(s, "coral") {
        return Some((255, 127, 80));
    }
    if equals_str(s, "cornflowerblue") {
        return Some((100, 149, 237));
    }
    if equals_str(s, "cornsilk") {
        return Some((255, 248, 220));
    }
    if equals_str(s, "crimson") {
        return Some((220, 20, 60));
    }
    if equals_str(s, "cyan") {
        return Some((0, 255, 255));
    }
    if equals_str(s, "darkblue") {
        return Some((0, 0, 139));
    }
    if equals_str(s, "darkcyan") {
        return Some((0, 139, 139));
    }
    if equals_str(s, "darkgoldenrod") {
        return Some((184, 134, 11));
    }
    if equals_str(s, "darkgray") {
        return Some((169, 169, 169));
    }
    if equals_str(s, "darkgreen") {
        return Some((0, 100, 0));
    }
    if equals_str(s, "darkgrey") {
        return Some((169, 169, 169));
    }
    if equals_str(s, "darkkhaki") {
        return Some((189, 183, 107));
    }
    if equals_str(s, "darkmagenta") {
        return Some((139, 0, 139));
    }
    if equals_str(s, "darkolivegreen") {
        return Some((85, 107, 47));
    }
    if equals_str(s, "darkorange") {
        return Some((255, 140, 0));
    }
    if equals_str(s, "darkorchid") {
        return Some((153, 50, 204));
    }
    if equals_str(s, "darkred") {
        return Some((139, 0, 0));
    }
    if equals_str(s, "darksalmon") {
        return Some((233, 150, 122));
    }
    if equals_str(s, "darkseagreen") {
        return Some((143, 188, 143));
    }
    if equals_str(s, "darkslateblue") {
        return Some((72, 61, 139));
    }
    if equals_str(s, "darkslategray") {
        return Some((47, 79, 79));
    }
    if equals_str(s, "darkslategrey") {
        return Some((47, 79, 79));
    }
    if equals_str(s, "darkturquoise") {
        return Some((0, 206, 209));
    }
    if equals_str(s, "darkviolet") {
        return Some((148, 0, 211));
    }
    if equals_str(s, "deeppink") {
        return Some((255, 20, 147));
    }
    if equals_str(s, "deepskyblue") {
        return Some((0, 191, 255));
    }
    if equals_str(s, "dimgray") {
        return Some((105, 105, 105));
    }
    if equals_str(s, "dimgrey") {
        return Some((105, 105, 105));
    }
    if equals_str(s, "dodgerblue") {
        return Some((30, 144, 255));
    }
    if equals_str(s, "firebrick") {
        return Some((178, 34, 34));
    }
    if equals_str(s, "floralwhite") {
        return Some((255, 250, 240));
    }
    if equals_str(s, "forestgreen") {
        return Some((34, 139, 34));
    }
    if equals_str(s, "fuchsia") {
        return Some((255, 0, 255));
    }
    if equals_str(s, "gainsboro") {
        return Some((220, 220, 220));
    }
    if equals_str(s, "ghostwhite") {
        return Some((248, 248, 255));
    }
    if equals_str(s, "gold") {
        return Some((255, 215, 0));
    }
    if equals_str(s, "goldenrod") {
        return Some((218, 165, 32));
    }
    if equals_str(s, "gray") {
        return Some((128, 128, 128));
    }
    if equals_str(s, "green") {
        return Some((0, 128, 0));
    }
    if equals_str(s, "greenyellow") {
        return Some((173, 255, 47));
    }
    if equals_str(s, "grey") {
        return Some((128, 128, 128));
    }
    if equals_str(s, "honeydew") {
        return Some((240, 255, 240));
    }
    if equals_str(s, "hotpink") {
        return Some((255, 105, 180));
    }
    if equals_str(s, "indianred") {
        return Some((205, 92, 92));
    }
    if equals_str(s, "indigo") {
        return Some((75, 0, 130));
    }
    if equals_str(s, "ivory") {
        return Some((255, 255, 240));
    }
    if equals_str(s, "khaki") {
        return Some((240, 230, 140));
    }
    if equals_str(s, "lavender") {
        return Some((230, 230, 250));
    }
    if equals_str(s, "lavenderblush") {
        return Some((255, 240, 245));
    }
    if equals_str(s, "lawngreen") {
        return Some((124, 252, 0));
    }
    if equals_str(s, "lemonchiffon") {
        return Some((255, 250, 205));
    }
    if equals_str(s, "lightblue") {
        return Some((173, 216, 230));
    }
    if equals_str(s, "lightcoral") {
        return Some((240, 128, 128));
    }
    if equals_str(s, "lightcyan") {
        return Some((224, 255, 255));
    }
    if equals_str(s, "lightgoldenrodyellow") {
        return Some((250, 250, 210));
    }
    if equals_str(s, "lightgray") {
        return Some((211, 211, 211));
    }
    if equals_str(s, "lightgreen") {
        return Some((144, 238, 144));
    }
    if equals_str(s, "lightgrey") {
        return Some((211, 211, 211));
    }
    if equals_str(s, "lightpink") {
        return Some((255, 182, 193));
    }
    if equals_str(s, "lightsalmon") {
        return Some((255, 160, 122));
    }
    if equals_str(s, "lightseagreen") {
        return Some((32, 178, 170));
    }
    if equals_str(s, "lightskyblue") {
        return Some((135, 206, 250));
    }
    if equals_str(s, "lightslategray") {
        return Some((119, 136, 153));
    }
    if equals_str(s, "lightslategrey") {
        return Some((119, 136, 153));
    }
    if equals_str(s, "lightsteelblue") {
        return Some((176, 196, 222));
    }
    if equals_str(s, "lightyellow") {
        return Some((255, 255, 224));
    }
    if equals_str(s, "lime") {
        return Some((0, 255, 0));
    }
    if equals_str(s, "limegreen") {
        return Some((50, 205, 50));
    }
    if equals_str(s, "linen") {
        return Some((250, 240, 230));
    }
    if equals_str(s, "magenta") {
        return Some((255, 0, 255));
    }
    if equals_str(s, "maroon") {
        return Some((128, 0, 0));
    }
    if equals_str(s, "mediumaquamarine") {
        return Some((102, 205, 170));
    }
    if equals_str(s, "mediumblue") {
        return Some((0, 0, 205));
    }
    if equals_str(s, "mediumorchid") {
        return Some((186, 85, 211));
    }
    if equals_str(s, "mediumpurple") {
        return Some((147, 112, 219));
    }
    if equals_str(s, "mediumseagreen") {
        return Some((60, 179, 113));
    }
    if equals_str(s, "mediumslateblue") {
        return Some((123, 104, 238));
    }
    if equals_str(s, "mediumspringgreen") {
        return Some((0, 250, 154));
    }
    if equals_str(s, "mediumturquoise") {
        return Some((72, 209, 204));
    }
    if equals_str(s, "mediumvioletred") {
        return Some((199, 21, 133));
    }
    if equals_str(s, "midnightblue") {
        return Some((25, 25, 112));
    }
    if equals_str(s, "mintcream") {
        return Some((245, 255, 250));
    }
    if equals_str(s, "mistyrose") {
        return Some((255, 228, 225));
    }
    if equals_str(s, "moccasin") {
        return Some((255, 228, 181));
    }
    if equals_str(s, "navajowhite") {
        return Some((255, 222, 173));
    }
    if equals_str(s, "navy") {
        return Some((0, 0, 128));
    }
    if equals_str(s, "oldlace") {
        return Some((253, 245, 230));
    }
    if equals_str(s, "olive") {
        return Some((128, 128, 0));
    }
    if equals_str(s, "olivedrab") {
        return Some((107, 142, 35));
    }
    if equals_str(s, "orange") {
        return Some((255, 165, 0));
    }
    if equals_str(s, "orangered") {
        return Some((255, 69, 0));
    }
    if equals_str(s, "orchid") {
        return Some((218, 112, 214));
    }
    if equals_str(s, "palegoldenrod") {
        return Some((238, 232, 170));
    }
    if equals_str(s, "palegreen") {
        return Some((152, 251, 152));
    }
    if equals_str(s, "paleturquoise") {
        return Some((175, 238, 238));
    }
    if equals_str(s, "palevioletred") {
        return Some((219, 112, 147));
    }
    if equals_str(s, "papayawhip") {
        return Some((255, 239, 213));
    }
    if equals_str(s, "peachpuff") {
        return Some((255, 218, 185));
    }
    if equals_str(s, "peru") {
        return Some((205, 133, 63));
    }
    if equals_str(s, "pink") {
        return Some((255, 192, 203));
    }
    if equals_str(s, "plum") {
        return Some((221, 160, 221));
    }
    if equals_str(s, "powderblue") {
        return Some((176, 224, 230));
    }
    if equals_str(s, "purple") {
        return Some((128, 0, 128));
    }
    if equals_str(s, "rebeccapurple") {
        return Some((102, 51, 153));
    }
    if equals_str(s, "red") {
        return Some((255, 0, 0));
    }
    if equals_str(s, "rosybrown") {
        return Some((188, 143, 143));
    }
    if equals_str(s, "royalblue") {
        return Some((65, 105, 225));
    }
    if equals_str(s, "saddlebrown") {
        return Some((139, 69, 19));
    }
    if equals_str(s, "salmon") {
        return Some((250, 128, 114));
    }
    if equals_str(s, "sandybrown") {
        return Some((244, 164, 96));
    }
    if equals_str(s, "seagreen") {
        return Some((46, 139, 87));
    }
    if equals_str(s, "seashell") {
        return Some((255, 245, 238));
    }
    if equals_str(s, "sienna") {
        return Some((160, 82, 45));
    }
    if equals_str(s, "silver") {
        return Some((192, 192, 192));
    }
    if equals_str(s, "skyblue") {
        return Some((135, 206, 235));
    }
    if equals_str(s, "slateblue") {
        return Some((106, 90, 205));
    }
    if equals_str(s, "slategray") {
        return Some((112, 128, 144));
    }
    if equals_str(s, "slategrey") {
        return Some((112, 128, 144));
    }
    if equals_str(s, "snow") {
        return Some((255, 250, 250));
    }
    if equals_str(s, "springgreen") {
        return Some((0, 255, 127));
    }
    if equals_str(s, "steelblue") {
        return Some((70, 130, 180));
    }
    if equals_str(s, "tan") {
        return Some((210, 180, 140));
    }
    if equals_str(s, "teal") {
        return Some((0, 128, 128));
    }
    if equals_str(s, "thistle") {
        return Some((216, 191, 216));
    }
    if equals_str(s, "tomato") {
        return Some((255, 99, 71));
    }
    if equals_str(s, "turquoise") {
        return Some((64, 224, 208));
    }
    if equals_str(s, "violet") {
        return Some((238, 130, 238));
    }
    if equals_str(s, "wheat") {
        return Some((245, 222, 179));
    }
    if equals_str(s, "white") {
        return Some((255, 255, 255));
    }
    if equals_str(s, "whitesmoke") {
        return Some((245, 245, 245));
    }
    if equals_str(s, "yellow") {
        return Some((255, 255, 0));
    }
    if equals_str(s, "yellowgreen") {
        return Some((154, 205, 50));
    }
    None
}


/// The first name, in alphabetical order, of the named color with these
/// 8-bit channels, if any.
pub open spec fn name_of_rgb(r: u8, g: u8, b: u8) -> Option<Seq<char>> {
    if r == 240 && g == 248 && b == 255 {
        Some("aliceblue"@)
    } else if r == 250 && g == 235 && b == 215 {
        Some("antiquewhite"@)
    } else if r == 0 && g == 255 && b == 255 {
        Some("aqua"@)
    } else if r == 127 && g == 255 && b == 212 {
        Some("aquamarine"@)
    } else if r == 240 && g == 255 && b == 255 {
        Some("azure"@)
    } else if r == 245 && g == 245 && b == 220 {
        Some("beige"@)
    } else if r == 255 && g == 228 && b == 196 {
        Some("bisque"@)
    } else if r == 0 && g == 0 && b == 0 {
        Some("black"@)
    } else if r == 255 && g == 235 && b == 205 {
        Some("blanchedalmond"@)
    } else if r == 0 && g == 0 && b == 255 {
        Some("blue"@)
    } else if r == 138 && g == 43 && b == 226 {
        Some("blueviolet"@)
    } else if r == 165 && g == 42 && b == 42 {
        Some("brown"@)
    } else if r == 222 && g == 184 && b == 135 {
        Some("burlywood"@)
    } else if r == 95 && g == 158 && b == 160 {
        Some("cadetblue"@)
    } else if r == 127 && g == 255 && b == 0 {
        Some("chartreuse"@)
    } else if r == 210 && g == 105 && b == 30 {
        Some("chocolate"@)
    } else if r == 255 && g == 127 && b == 80 {
        Some("coral"@)
    } else if r == 100 && g == 149 && b == 237 {
        Some("cornflowerblue"@)
    } else if r == 255 && g == 248 && b == 220 {
        Some("cornsilk"@)
    } else if r == 220 && g == 20 && b == 60 {
        Some("crimson"@)
    } else if r == 0 && g == 255 && b == 255 {
        Some("cyan"@)
    } else if r == 0 && g == 0 && b == 139 {
        Some("darkblue"@)
    } else if r == 0 && g == 139 && b == 139 {
        Some("darkcyan"@)
    } else if r == 184 && g == 134 && b == 11 {
        Some("darkgoldenrod"@)
    } else if r == 169 && g == 169 && b == 169 {
        Some("darkgray"@)
    } else if r == 0 && g == 100 && b == 0 {
        Some("darkgreen"@)
    } else if r == 169 && g == 169 && b == 169 {
        Some("darkgrey"@)
    } else if r == 189 && g == 183 && b == 107 {
        Some("darkkhaki"@)
    } else if r == 139 && g == 0 && b == 139 {
        Some("darkmagenta"@)
    } else if r == 85 && g == 107 && b == 47 {
        Some("darkolivegreen"@)
    } else if r == 255 && g == 140 && b == 0 {
        Some("darkorange"@)
    } else if r == 153 && g == 50 && b == 204 {
        Some("darkorchid"@)
    } else if r == 139 && g == 0 && b == 0 {
        Some("darkred"@)
    } else if r == 233 && g == 150 && b == 122 {
        Some("darksalmon"@)
    } else if r == 143 && g == 188 && b == 143 {
        Some("darkseagreen"@)
    } else if r == 72 && g == 61 && b == 139 {
        Some("darkslateblue"@)
    } else if r == 47 && g == 79 && b == 79 {
        Some("darkslategray"@)
    } else if r == 47 && g == 79 && b == 79 {
        Some("darkslategrey"@)
    } else if r == 0 && g == 206 && b == 209 {
        Some("darkturquoise"@)
    } else if r == 148 && g == 0 && b == 211 {
        Some("darkviolet"@)
    } else if r == 255 && g == 20 && b == 147 {
        Some("deeppink"@)
    } else if r == 0 && g == 191 && b == 255 {
        Some("deepskyblue"@)
    } else if r == 105 && g == 105 && b == 105 {
        Some("dimgray"@)
    } else if r == 105 && g == 105 && b == 105 {
        Some("dimgrey"@)
    } else if r == 30 && g == 144 && b == 255 {
        Some("dodgerblue"@)
    } else if r == 178 && g == 34 && b == 34 {
        Some("firebrick"@)
    } else if r == 255 && g == 250 && b == 240 {
        Some("floralwhite"@)
    } else if r == 34 && g == 139 && b == 34 {
        Some("forestgreen"@)
    } else if r == 255 && g == 0 && b == 255 {
        Some("fuchsia"@)
    } else if r == 220 && g == 220 && b == 220 {
        Some("gainsboro"@)
    } else if r == 248 && g == 248 && b == 255 {
        Some("ghostwhite"@)
    } else if r == 255 && g == 215 && b == 0 {
        Some("gold"@)
    } else if r == 218 && g == 165 && b == 32 {
        Some("goldenrod"@)
    } else if r == 128 && g == 128 && b == 128 {
        Some("gray"@)
    } else if r == 0 && g == 128 && b == 0 {
        Some("green"@)
    } else if r == 173 && g == 255 && b == 47 {
        Some("greenyellow"@)
    } else if r == 128 && g == 128 && b == 128 {
        Some("grey"@)
    } else if r == 240 && g == 255 && b == 240 {
        Some("honeydew"@)
    } else if r == 255 && g == 105 && b == 180 {
        Some("hotpink"@)
    } else if r == 205 && g == 92 && b == 92 {
        Some("indianred"@)
    } else if r == 75 && g == 0 && b == 130 {
        Some("indigo"@)
    } else if r == 255 && g == 255 && b == 240 {
        Some("ivory"@)
    } else if r == 240 && g == 230 && b == 140 {
        Some("khaki"@)
    } else if r == 230 && g == 230 && b == 250 {
        Some("lavender"@)
    } else if r == 255 && g == 240 && b == 245 {
        Some("lavenderblush"@)
    } else if r == 124 && g == 252 && b == 0 {
        Some("lawngreen"@)
    } else if r == 255 && g == 250 && b == 205 {
        Some("lemonchiffon"@)
    } else if r == 173 && g == 216 && b == 230 {
        Some("lightblue"@)
    } else if r == 240 && g == 128 && b == 128 {
        Some("lightcoral"@)
    } else if r == 224 && g == 255 && b == 255 {
        Some("lightcyan"@)
    } else if r == 250 && g == 250 && b == 210 {
        Some("lightgoldenrodyellow"@)
    } else if r == 211 && g == 211 && b == 211 {
        Some("lightgray"@)
    } else if r == 144 && g == 238 && b == 144 {
        Some("lightgreen"@)
    } else if r == 211 && g == 211 && b == 211 {
        Some("lightgrey"@)
    } else if r == 255 && g == 182 && b == 193 {
        Some("lightpink"@)
    } else if r == 255 && g == 160 && b == 122 {
        Some("lightsalmon"@)
    } else if r == 32 && g == 178 && b == 170 {
        Some("lightseagreen"@)
    } else if r == 135 && g == 206 && b == 250 {
        Some("lightskyblue"@)
    } else if r == 119 && g == 136 && b == 153 {
        Some("lightslategray"@)
    } else if r == 119 && g == 136 && b == 153 {
        Some("lightslategrey"@)
    } else if r == 176 && g == 196 && b == 222 {
        Some("lightsteelblue"@)
    } else if r == 255 && g == 255 && b == 224 {
        Some("lightyellow"@)
    } else if r == 0 && g == 255 && b == 0 {
        Some("lime"@)
    } else if r == 50 && g == 205 && b == 50 {
        Some("limegreen"@)
    } else if r == 250 && g == 240 && b == 230 {
        Some("linen"@)
    } else if r == 255 && g == 0 && b == 255 {
        Some("magenta"@)
    } else if r == 128 && g == 0 && b == 0 {
        Some("maroon"@)
    } else if r == 102 && g == 205 && b == 170 {
        Some("mediumaquamarine"@)
    } else if r == 0 && g == 0 && b == 205 {
        Some("mediumblue"@)
    } else if r == 186 && g == 85 && b == 211 {
        Some("mediumorchid"@)
    } else if r == 147 && g == 112 && b == 219 {
        Some("mediumpurple"@)
    } else if r == 60 && g == 179 && b == 113 {
        Some("mediumseagreen"@)
    } else if r == 123 && g == 104 && b == 238 {
        Some("mediumslateblue"@)
    } else if r == 0 && g == 250 && b == 154 {
        Some("mediumspringgreen"@)
    } else if r == 72 && g == 209 && b == 204 {
        Some("mediumturquoise"@)
    } else if r == 199 && g == 21 && b == 133 {
        Some("mediumvioletred"@)
    } else if r == 25 && g == 25 && b == 112 {
        Some("midnightblue"@)
    } else if r == 245 && g == 255 && b == 250 {
        Some("mintcream"@)
    } else if r == 255 && g == 228 && b == 225 {
        Some("mistyrose"@)
    } else if r == 255 && g == 228 && b == 181 {
        Some("moccasin"@)
    } else if r == 255 && g == 222 && b == 173 {
        Some("navajowhite"@)
    } else if r == 0 && g == 0 && b == 128 {
        Some("navy"@)
    } else if r == 253 && g == 245 && b == 230 {
        Some("oldlace"@)
    } else if r == 128 && g == 128 && b == 0 {
        Some("olive"@)
    } else if r == 107 && g == 142 && b == 35 {
        Some("olivedrab"@)
    } else if r == 255 && g == 165 && b == 0 {
        Some("orange"@)
    } else if r == 255 && g == 69 && b == 0 {
        Some("orangered"@)
    } else if r == 218 && g == 112 && b == 214 {
        Some("orchid"@)
    } else if r == 238 && g == 232 && b == 170 {
        Some("palegoldenrod"@)
    } else if r == 152 && g == 251 && b == 152 {
        Some("palegreen"@)
    } else if r == 175 && g == 238 && b == 238 {
        Some("paleturquoise"@)
    } else if r == 219 && g == 112 && b == 147 {
        Some("palevioletred"@)
    } else if r == 255 && g == 239 && b == 213 {
        Some("papayawhip"@)
    } else if r == 255 && g == 218 && b == 185 {
        Some("peachpuff"@)
    } else if r == 205 && g == 133 && b == 63 {
        Some("peru"@)
    } else if r == 255 && g == 192 && b == 203 {
        Some("pink"@)
    } else if r == 221 && g == 160 && b == 221 {
        Some("plum"@)
    } else if r == 176 && g == 224 && b == 230 {
        Some("powderblue"@)
    } else if r == 128 && g == 0 && b == 128 {
        Some("purple"@)
    } else if r == 102 && g == 51 && b == 153 {
        Some("rebeccapurple"@)
    } else if r == 255 && g == 0 && b == 0 {
        Some("red"@)
    } else if r == 188 && g == 143 && b == 143 {
        Some("rosybrown"@)
    } else if r == 65 && g == 105 && b == 225 {
        Some("royalblue"@)
    } else if r == 139 && g == 69 && b == 19 {
        Some("saddlebrown"@)
    } else if r == 250 && g == 128 && b == 114 {
        Some("salmon"@)
    } else if r == 244 && g == 164 && b == 96 {
        Some("sandybrown"@)
    } else if r == 46 && g == 139 && b == 87 {
        Some("seagreen"@)
    } else if r == 255 && g == 245 && b == 238 {
        Some("seashell"@)
    } else if r == 160 && g == 82 && b == 45 {
        Some("sienna"@)
    } else if r == 192 && g == 192 && b == 192 {
        Some("silver"@)
    } else if r == 135 && g == 206 && b == 235 {
        Some("skyblue"@)
    } else if r == 106 && g == 90 && b == 205 {
        Some("slateblue"@)
    } else if r == 112 && g == 128 && b == 144 {
        Some("slategray"@)
    } else if r == 112 && g == 128 && b == 144 {
        Some("slategrey"@)
    } else if r == 255 && g == 250 && b == 250 {
        Some("snow"@)
    } else if r == 0 && g == 255 && b == 127 {
        Some("springgreen"@)
    } else if r == 70 && g == 130 && b == 180 {
        Some("steelblue"@)
    } else if r == 210 && g == 180 && b == 140 {
        Some("tan"@)
    } else if r == 0 && g == 128 && b == 128 {
        Some("teal"@)
    } else if r == 216 && g == 191 && b == 216 {
        Some("thistle"@)
    } else if r == 255 && g == 99 && b == 71 {
        Some("tomato"@)
    } else if r == 64 && g == 224 && b == 208 {
        Some("turquoise"@)
    } else if r == 238 && g == 130 && b == 238 {
        Some("violet"@)
    } else if r == 245 && g == 222 && b == 179 {
        Some("wheat"@)
    } else if r == 255 && g == 255 && b == 255 {
        Some("white"@)
    } else if r == 245 && g == 245 && b == 245 {
        Some("whitesmoke"@)
    } else if r == 255 && g == 255 && b == 0 {
        Some("yellow"@)
    } else if r == 154 && g == 205 && b == 50 {
        Some("yellowgreen"@)
    } else {
        None
    }
}

/// Looks up the name of a color by its 8-bit channels (see `name_of_rgb`).
#[verifier::rlimit(50)]
pub fn lookup_name(r: u8, g: u8, b: u8) -> (n: Option<&'static str>)
    ensures
        match name_of_rgb(r, g, b) {
            Some(s) => n is Some && n->Some_0@ == s,
            None => n is None,
        },
{
    if r == 240 && g == 248 && b == 255 {
        return Some("aliceblue");
    }
    if r == 250 && g == 235 && b == 215 {
        return Some("antiquewhite");
    }
    if r == 0 && g == 255 && b == 255 {
        return Some("aqua");
    }
    if r == 127 && g == 255 && b == 212 {
        return Some("aquamarine");
    }
    if r == 240 && g == 255 && b == 255 {
        return Some("azure");
    }
    if r == 245 && g == 245 && b == 220 {
        return Some("beige");
    }
    if r == 255 && g == 228 && b == 196 {
        return Some("bisque");
    }
    if r == 0 && g == 0 && b == 0 {
        return Some("black");
    }
    if r == 255 && g == 235 && b == 205 {
        return Some("blanchedalmond");
    }
    if r == 0 && g == 0 && b == 255 {
        return Some("blue");
    }
    if r == 138 && g == 43 && b == 226 {
        return Some("blueviolet");
    }
    if r == 165 && g == 42 && b == 42 {
        return Some("brown");
    }
    if r == 222 && g == 184 && b == 135 {
        return Some("burlywood");
    }
    if r == 95 && g == 158 && b == 160 {
        return Some("cadetblue");
    }
    if r == 127 && g == 255 && b == 0 {
        return Some("chartreuse");
    }
    if r == 210 && g == 105 && b == 30 {
        return Some("chocolate");
    }
    if r == 255 && g == 127 && b == 80 {
        return Some("coral");
    }
    if r == 100 && g == 149 && b == 237 {
        return Some("cornflowerblue");
    }
    if r == 255 && g == 248 && b == 220 {
        return Some("cornsilk");
    }
    if r == 220 && g == 20 && b == 60 {
        return Some("crimson");
    }
    if r == 0 && g == 255 && b == 255 {
        return Some("cyan");
    }
    if r == 0 && g == 0 && b == 139 {
        return Some("darkblue");
    }
    if r == 0 && g == 139 && b == 139 {
        return Some("darkcyan");
    }
    if r == 184 && g == 134 && b == 11 {
        return Some("darkgoldenrod");
    }
    if r == 169 && g == 169 && b == 169 {
        return Some("darkgray");
    }
    if r == 0 && g == 100 && b == 0 {
        return Some("darkgreen");
    }
    if r == 169 && g == 169 && b == 169 {
        return Some("darkgrey");
    }
    if r == 189 && g == 183 && b == 107 {
        return Some("darkkhaki");
    }
    if r == 139 && g == 0 && b == 139 {
        return Some("darkmagenta");
    }
    if r == 85 && g == 107 && b == 47 {
        return Some("darkolivegreen");
    }
    if r == 255 && g == 140 && b == 0 {
        return Some("darkorange");
    }
    if r == 153 && g == 50 && b == 204 {
        return Some("darkorchid");
    }
    if r == 139 && g == 0 && b == 0 {
        return Some("darkred");
    }
    if r == 233 && g == 150 && b == 122 {
        return Some("darksalmon");
    }
    if r == 143 && g == 188 && b == 143 {
        return Some("darkseagreen");
    }
    if r == 72 && g == 61 && b == 139 {
        return Some("darkslateblue");
    }
    if r == 47 && g == 79 && b == 79 {
        return Some("darkslategray");
    }
    if r == 47 && g == 79 && b == 79 {
        return Some("darkslategrey");
    }
    if r == 0 && g == 206 && b == 209 {
        return Some("darkturquoise");
    }
    if r == 148 && g == 0 && b == 211 {
        return Some("darkviolet");
    }
    if r == 255 && g == 20 && b == 147 {
        return Some("deeppink");
    }
    if r == 0 && g == 191 && b == 255 {
        return Some("deepskyblue");
    }
    if r == 105 && g == 105 && b == 105 {
        return Some("dimgray");
    }
    if r == 105 && g == 105 && b == 105 {
        return Some("dimgrey");
    }
    if r == 30 && g == 144 && b == 255 {
        return Some("dodgerblue");
    }
    if r == 178 && g == 34 && b == 34 {
        return Some("firebrick");
    }
    if r == 255 && g == 250 && b == 240 {
        return Some("floralwhite");
    }
    if r == 34 && g == 139 && b == 34 {
        return Some("forestgreen");
    }
    if r == 255 && g == 0 && b == 255 {
        return Some("fuchsia");
    }
    if r == 220 && g == 220 && b == 220 {
        return Some("gainsboro");
    }
    if r == 248 && g == 248 && b == 255 {
        return Some("ghostwhite");
    }
    if r == 255 && g == 215 && b == 0 {
        return Some("gold");
    }
    if r == 218 && g == 165 && b == 32 {
        return Some("goldenrod");
    }
    if r == 128 && g == 128 && b == 128 {
        return Some("gray");
    }
    if r == 0 && g == 128 && b == 0 {
        return Some("green");
    }
    if r == 173 && g == 255 && b == 47 {
        return Some("greenyellow");
    }
    if r == 128 && g == 128 && b == 128 {
        return Some("grey");
    }
    if r == 240 && g == 255 && b == 240 {
        return Some("honeydew");
    }
    if r == 255 && g == 105 && b == 180 {
        return Some("hotpink");
    }
    if r == 205 && g == 92 && b == 92 {
        return Some("indianred");
    }
    if r == 75 && g == 0 && b == 130 {
        return Some("indigo");
    }
    if r == 255 && g == 255 && b == 240 {
        return Some("ivory");
    }
    if r == 240 && g == 230 && b == 140 {
        return Some("khaki");
    }
    if r == 230 && g == 230 && b == 250 {
        return Some("lavender");
    }
    if r == 255 && g == 240 && b == 245 {
        return Some("lavenderblush");
    }
    if r == 124 && g == 252 && b == 0 {
        return Some("lawngreen");
    }
    if r == 255 && g == 250 && b == 205 {
        return Some("lemonchiffon");
    }
    if r == 173 && g == 216 && b == 230 {
        return Some("lightblue");
    }
    if r == 240 && g == 128 && b == 128 {
        return Some("lightcoral");
    }
    if r == 224 && g == 255 && b == 255 {
        return Some("lightcyan");
    }
    if r == 250 && g == 250 && b == 210 {
        return Some("lightgoldenrodyellow");
    }
    if r == 211 && g == 211 && b == 211 {
        return Some("lightgray");
    }
    if r == 144 && g == 238 && b == 144 {
        return Some("lightgreen");
    }
    if r == 211 && g == 211 && b == 211 {
        return Some("lightgrey");
    }
    if r == 255 && g == 182 && b == 193 {
        return Some("lightpink");
    }
    if r == 255 && g == 160 && b == 122 {
        return Some("lightsalmon");
    }
    if r == 32 && g == 178 && b == 170 {
        return Some("lightseagreen");
    }
    if r == 135 && g == 206 && b == 250 {
        return Some("lightskyblue");
    }
    if r == 119 && g == 136 && b == 153 {
        return Some("lightslategray");
    }
    if r == 119 && g == 136 && b == 153 {
        return Some("lightslategrey");
    }
    if r == 176 && g == 196 && b == 222 {
        return Some("lightsteelblue");
    }
    if r == 255 && g == 255 && b == 224 {
        return Some("lightyellow");
    }
    if r == 0 && g == 255 && b == 0 {
        return Some("lime");
    }
    if r == 50 && g == 205 && b == 50 {
        return Some("limegreen");
    }
    if r == 250 && g == 240 && b == 230 {
        return Some("linen");
    }
    if r == 255 && g == 0 && b == 255 {
        return Some("magenta");
    }
    if r == 128 && g == 0 && b == 0 {
        return Some("maroon");
    }
    if r == 102 && g == 205 && b == 170 {
        return Some("mediumaquamarine");
    }
    if r == 0 && g == 0 && b == 205 {
        return Some("mediumblue");
    }
    if r == 186 && g == 85 && b == 211 {
        return Some("mediumorchid");
    }
    if r == 147 && g == 112 && b == 219 {
        return Some("mediumpurple");
    }
    if r == 60 && g == 179 && b == 113 {
        return Some("mediumseagreen");
    }
    if r == 123 && g == 104 && b == 238 {
        return Some("mediumslateblue");
    }
    if r == 0 && g == 250 && b == 154 {
        return Some("mediumspringgreen");
    }
    if r == 72 && g == 209 && b == 204 {
        return Some("mediumturquoise");
    }
    if r == 199 && g == 21 && b == 133 {
        return Some("mediumvioletred");
    }
    if r == 25 && g == 25 && b == 112 {
        return Some("midnightblue");
    }
    if r == 245 && g == 255 && b == 250 {
        return Some("mintcream");
    }
    if r == 255 && g == 228 && b == 225 {
        return Some("mistyrose");
    }
    if r == 255 && g == 228 && b == 181 {
        return Some("moccasin");
    }
    if r == 255 && g == 222 && b == 173 {
        return Some("navajowhite");
    }
    if r == 0 && g == 0 && b == 128 {
        return Some("navy");
    }
    if r == 253 && g == 245 && b == 230 {
        return Some("oldlace");
    }
    if r == 128 && g == 128 && b == 0 {
        return Some("olive");
    }
    if r == 107 && g == 142 && b == 35 {
        return Some("olivedrab");
    }
    if r == 255 && g == 165 && b == 0 {
        return Some("orange");
    }
    if r == 255 && g == 69 && b == 0 {
        return Some("orangered");
    }
    if r == 218 && g == 112 && b == 214 {
        return Some("orchid");
    }
    if r == 238 && g == 232 && b == 170 {
        return Some("palegoldenrod");
    }
    if r == 152 && g == 251 && b == 152 {
        return Some("palegreen");
    }
    if r == 175 && g == 238 && b == 238 {
        return Some("paleturquoise");
    }
    if r == 219 && g == 112 && b == 147 {
        return Some("palevioletred");
    }
    if r == 255 && g == 239 && b == 213 {
        return Some("papayawhip");
    }
    if r == 255 && g == 218 && b == 185 {
        return Some("peachpuff");
    }
    if r == 205 && g == 133 && b == 63 {
        return Some("peru");
    }
    if r == 255 && g == 192 && b == 203 {
        return Some("pink");
    }
    if r == 221 && g == 160 && b == 221 {
        return Some("plum");
    }
    if r == 176 && g == 224 && b == 230 {
        return Some("powderblue");
    }
    if r == 128 && g == 0 && b == 128 {
        return Some("purple");
    }
    if r == 102 && g == 51 && b == 153 {
        return Some("rebeccapurple");
    }
    if r == 255 && g == 0 && b == 0 {
        return Some("red");
    }
    if r == 188 && g == 143 && b == 143 {
        return Some("rosybrown");
    }
    if r == 65 && g == 105 && b == 225 {
        return Some("royalblue");
    }
    if r == 139 && g == 69 && b == 19 {
        return Some("saddlebrown");
    }
    if r == 250 && g == 128 && b == 114 {
        return Some("salmon");
    }
    if r == 244 && g == 164 && b == 96 {
        return Some("sandybrown");
    }
    if r == 46 && g == 139 && b == 87 {
        return Some("seagreen");
    }
    if r == 255 && g == 245 && b == 238 {
        return Some("seashell");
    }
    if r == 160 && g == 82 && b == 45 {
        return Some("sienna");
    }
    if r == 192 && g == 192 && b == 192 {
        return Some("silver");
    }
    if r == 135 && g == 206 && b == 235 {
        return Some("skyblue");
    }
    if r == 106 && g == 90 && b == 205 {
        return Some("slateblue");
    }
    if r == 112 && g == 128 && b == 144 {
        return Some("slategray");
    }
    if r == 112 && g == 128 && b == 144 {
        return Some("slategrey");
    }
    if r == 255 && g == 250 && b == 250 {
        return Some("snow");
    }
    if r == 0 && g == 255 && b == 127 {
        return Some("springgreen");
    }
    if r == 70 && g == 130 && b == 180 {
        return Some("steelblue");
    }
    if r == 210 && g == 180 && b == 140 {
        return Some("tan");
    }
    if r == 0 && g == 128 && b == 128 {
        return Some("teal");
    }
    if r == 216 && g == 191 && b == 216 {
        return Some("thistle");
    }
    if r == 255 && g == 99 && b == 71 {
        return Some("tomato");
    }
    if r == 64 && g == 224 && b == 208 {
        return Some("turquoise");
    }
    if r == 238 && g == 130 && b == 238 {
        return Some("violet");
    }
    if r == 245 && g == 222 && b == 179 {
        return Some("wheat");
    }
    if r == 255 && g == 255 && b == 255 {
        return Some("white");
    }
    if r == 245 && g == 245 && b == 245 {
        return Some("whitesmoke");
    }
    if r == 255 && g == 255 && b == 0 {
        return Some("yellow");
    }
    if r == 154 && g == 205 && b == 50 {
        return Some("yellowgreen");
    }
    None
}

} // verus!
