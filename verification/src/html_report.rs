//! The HTML report over the appraised crates: a page with a table that has
//! a column per crate, the evaluation rows when some crate was evaluated,
//! then the metrics category by category.

use crate::codec::starts_with;
use crate::row_writer::utf8;
use crate::grouping::{first_names_in, flatten, group_all_metrics_by_category};
use crate::metrics::{category_at, category_name, Metric, MetricCategory};
use crate::report_text::{
    empty_cells, format_keywords_or_categories, format_metric_value, html_escape,
    html_text, http_prefix, https_prefix, is_categories_metric, is_keywords_metric, is_url,
    item_link, item_links, keyword_links, nonempty_items, percent_encoded, row_close, spacer_open, value_text, write_spacer_row,
};
use crate::reports::{
    any_evaluated, concat, crate_title, crate_title_text, format_acceptance_status,
    has_evaluation, last_metric, lemma_concat_take, same_text, status_text, ReportableCrate,
};
use crate::text::{contains_seq, join, lemma_join_push, push_str, split_on, unicode_lowercase};
use vstd::prelude::*;

verus! {

/// The page up to the title of its header: the document head with the
/// style sheet, and the opening of the header.
pub open spec fn html_head() -> Seq<char> {
    "<!DOCTYPE html>\n<html>\n<head>\n  <meta charset=\"UTF-8\">\n  <title>Crate Metrics</title>\n  <link rel=\"icon\" type=\"image/svg+xml\" href=\"data:image/svg+xml,%3Csvg viewBox='0 0 1200 800' xmlns='http://www.w3.org/2000/svg'%3E%3Cg%3E%3Cg transform='matrix(1,0,0,1,654.172,668.359)'%3E%3Cpath d='M0,-322.648C-114.597,-322.648 -218.172,-308.869 -296.172,-286.419L-296.172,-291.49C-374.172,-266.395 -423.853,-231.531 -423.853,-192.984C-423.853,-186.907 -422.508,-180.922 -420.15,-175.053L-428.134,-160.732C-428.134,-160.732 -434.547,-152.373 -423.199,-134.733C-413.189,-119.179 -363.035,-58.295 -336.571,-26.413C-325.204,-10.065 -317.488,0 -316.814,-0.973C-315.753,-2.516 -323.878,-33.202 -346.453,-68.215C-356.986,-87.02 -369.811,-111.934 -377.361,-130.335C-356.28,-116.993 -328.172,-104.89 -296.172,-94.474L-296.172,-94.633C-218.172,-72.18 -114.597,-58.404 0,-58.404C131.156,-58.404 248.828,-76.45 327.828,-104.895L327.828,-276.153C248.828,-304.6 131.156,-322.648 0,-322.648' fill='%23a52b00'/%3E%3C/g%3E%3Cg transform='matrix(1,0,0,1,1177.87,277.21)'%3E%3Cpath d='M0,227.175L-88.296,162.132C-89.126,159.237 -89.956,156.345 -90.812,153.474L-61.81,111.458C-58.849,107.184 -58.252,101.629 -60.175,96.755C-62.1,91.905 -66.311,88.428 -71.292,87.576L-120.335,79.255C-122.233,75.376 -124.225,71.557 -126.224,67.771L-105.62,20.599C-103.501,15.793 -103.947,10.209 -106.759,5.848C-109.556,1.465 -114.31,-1.094 -119.376,-0.895L-169.146,0.914C-171.723,-2.442 -174.34,-5.766 -177.012,-9.032L-165.574,-59.592C-164.415,-64.724 -165.876,-70.1 -169.453,-73.83C-173.008,-77.546 -178.175,-79.084 -183.089,-77.88L-231.567,-65.961C-234.707,-68.736 -237.897,-71.474 -241.126,-74.157L-239.381,-126.064C-239.193,-131.318 -241.643,-136.311 -245.849,-139.227C-250.053,-142.161 -255.389,-142.603 -259.987,-140.423L-305.213,-118.921C-308.853,-121.011 -312.515,-123.081 -316.218,-125.084L-324.209,-176.232C-325.021,-181.413 -328.355,-185.816 -333.024,-187.826C-337.679,-189.848 -343.014,-189.193 -347.101,-186.116L-387.422,-155.863C-391.392,-157.181 -395.38,-158.446 -399.418,-159.655L-416.798,-208.159C-418.564,-213.104 -422.64,-216.735 -427.608,-217.756C-432.561,-218.768 -437.656,-217.053 -441.091,-213.217L-475.029,-175.246C-479.133,-175.717 -483.239,-176.147 -487.356,-176.505L-513.564,-220.659C-516.22,-225.131 -520.908,-227.852 -525.961,-227.852C-531.002,-227.852 -535.7,-225.131 -538.333,-220.659L-564.547,-176.505C-568.666,-176.147 -572.791,-175.717 -576.888,-175.246L-610.831,-213.217C-614.268,-217.053 -619.382,-218.768 -624.318,-217.756C-629.284,-216.721 -633.363,-213.104 -635.124,-208.159L-652.517,-159.655C-656.544,-158.446 -660.534,-157.173 -664.514,-155.863L-704.822,-186.116C-708.92,-189.204 -714.254,-189.857 -718.92,-187.826C-723.57,-185.816 -726.917,-181.413 -727.723,-176.232L-735.72,-125.084C-739.42,-123.081 -743.083,-121.022 -746.734,-118.921L-791.956,-140.423C-796.548,-142.612 -801.908,-142.161 -806.091,-139.227C-810.292,-136.311 -812.747,-131.318 -812.557,-126.064L-810.821,-74.157C-814.04,-71.474 -817.224,-68.736 -820.379,-65.961L-868.849,-77.88C-873.774,-79.075 -878.935,-77.546 -882.499,-73.83C-886.084,-70.1 -887.538,-64.724 -886.384,-59.592L-874.969,-9.032C-877.618,-5.753 -880.239,-2.442 -882.808,0.914L-932.579,-0.895C-937.602,-1.043 -942.396,1.465 -945.202,5.848C-948.014,10.209 -948.439,15.793 -946.348,20.599L-925.729,67.771C-927.732,71.557 -929.721,75.376 -931.635,79.255L-980.675,87.576C-985.657,88.417 -989.858,91.892 -991.795,96.755C-993.72,101.629 -993.095,107.184 -990.156,111.458L-961.146,153.474C-961.37,154.215 -961.576,154.964 -961.799,155.707L-1043.82,242.829C-1043.82,242.829 -1056.38,252.68 -1038.09,275.831C-1021.95,296.252 -939.097,377.207 -895.338,419.62C-876.855,441.152 -864.195,454.486 -862.872,453.332C-860.784,451.5 -871.743,412.326 -908.147,366.362C-936.207,325.123 -972.625,261.696 -964.086,254.385C-964.086,254.385 -954.372,242.054 -934.882,233.178C-934.169,233.749 -935.619,232.613 -934.882,233.178C-934.882,233.178 -523.568,422.914 -142.036,236.388C-98.452,228.571 -72.068,251.917 -72.068,251.917C-62.969,257.193 -86.531,322.412 -105.906,365.583C-132.259,414.606 -136.123,452.859 -133.888,454.185C-132.479,455.027 -122.89,440.438 -109.214,417.219C-75.469,370.196 -11.675,280.554 0,258.781C13.239,234.094 0,227.175 0,227.175' fill='%23f74c00'/%3E%3C/g%3E%3C/g%3E%3C/svg%3E\">\n  <style>\n    :root {\n      --bg-color: #e5e7eb;\n      --card-bg: #ffffff;\n      --text-color: #1a202c;\n      --border-color: #e2e8f0;\n      --category-bg: #fed7aa;\n      --category-border: #cbd5e0;\n      --hover-bg: rgba(66, 153, 225, 0.04);\n      --metric-cell-bg: #fafafa;\n      --accent-color: #4299e1;\n    }\n    @media (prefers-color-scheme: dark) {\n      :root {\n        --bg-color: #374151;\n        --card-bg: #000000;\n        --text-color: #e5e7eb;\n        --border-color: #4b5563;\n        --category-bg: #a52b00;\n        --category-border: #6b7280;\n        --hover-bg: rgba(99, 179, 237, 0.08);\n        --metric-cell-bg: #0a0a0a;\n        --accent-color: #60a5fa;\n      }\n    }\n    body.dark-theme {\n      --bg-color: #374151;\n      --card-bg: #000000;\n      --text-color: #e5e7eb;\n      --border-color: #4b5563;\n      --category-bg: #a52b00;\n      --category-border: #6b7280;\n      --hover-bg: rgba(99, 179, 237, 0.08);\n      --metric-cell-bg: #0a0a0a;\n      --accent-color: #60a5fa;\n    }\n    body.light-theme {\n      --bg-color: #e5e7eb;\n      --card-bg: #ffffff;\n      --text-color: #1a202c;\n      --border-color: #e2e8f0;\n      --category-bg: #fed7aa;\n      --category-border: #cbd5e0;\n      --hover-bg: rgba(66, 153, 225, 0.04);\n      --metric-cell-bg: #fafafa;\n      --accent-color: #4299e1;\n    }\n    body { font-family: -apple-system, BlinkMacSystemFont, 'Segoe UI', Helvetica, Arial, sans-serif; margin: 0; padding: 32px; background-color: var(--bg-color); color: var(--text-color); transition: background-color 0.3s ease, color 0.3s ease; }\n    body.dark-theme { color-scheme: dark; }\n    body.light-theme { color-scheme: light; }\n    .header { display: grid; grid-template-columns: 1fr auto 1fr; align-items: flex-start; gap: 20px; margin-bottom: 32px; }\n    .header-content {}\n    h1 { color: var(--text-color); margin-bottom: 4px; font-size: 28px; font-weight: 600; letter-spacing: -0.5px; margin-top: 0; }\n    .subtitle { color: var(--text-color); font-size: 13px; opacity: 0.6; margin-top: 0; margin-bottom: 0; font-weight: 400; }\n    .ferris { width: 60px; height: 40px; margin: 0 20px; flex-shrink: 0; }\n    .theme-toggle { background: none; border: 2px solid var(--border-color); border-radius: 8px; width: 44px; height: 44px; cursor: pointer; display: flex; align-items: center; justify-content: center; transition: all 0.2s ease; flex-shrink: 0; justify-self: end; }\n    .theme-toggle:hover { border-color: var(--accent-color); background-color: var(--hover-bg); }\n    .theme-toggle svg { width: 20px; height: 20px; fill: var(--text-color); opacity: 0.8; }\n    .table-wrapper { background-color: var(--card-bg); border-radius: 12px; box-shadow: 0 1px 3px rgba(0,0,0,0.06), 0 4px 12px rgba(0,0,0,0.04); overflow: hidden; }\n    table { border-collapse: collapse; width: 100%; background-color: var(--card-bg); }\n    td { border-bottom: 1px solid var(--border-color); padding: 14px 16px; text-align: left; font-size: 14px; }\n    .category-header { background-color: var(--category-bg); font-weight: bold; font-size: 11px; letter-spacing: 0.8px; text-transform: uppercase; color: var(--text-color); opacity: 0.8; height: 44px; }\n    .category-header td { padding: 12px 16px; border-top: 3px solid var(--category-border); border-bottom: 1px solid var(--category-border); }\n    .category-spacer { height: 16px; }\n    .category-spacer td { background-color: var(--bg-color); border: none; padding: 0; }\n    .category-header td:first-child { position: sticky; left: 0; z-index: 15; background-color: var(--category-bg); border-right: 1px solid var(--border-color); }\n    .category-header td:not(:first-child) { background-color: var(--category-bg); }\n    .metric-row:hover { background-color: var(--hover-bg); }\n    .metric-row td:first-child { font-weight: 500; background-color: var(--metric-cell-bg); position: sticky; left: 0; z-index: 5; border-right: 1px solid var(--border-color); }\n    .metric-row:hover td:first-child { background-color: var(--hover-bg); }\n    .metric-row:last-child td { border-bottom: none; }\n    .low-risk { background-color: #c8e6c9; color: #2e7d32; font-weight: 600; padding: 3px 8px; border-radius: 4px; font-size: 11px; }\n    .medium-risk { background-color: #fff9c4; color: #f57f17; font-weight: 600; padding: 3px 8px; border-radius: 4px; font-size: 11px; }\n    .high-risk { background-color: #ffcdd2; color: #c62828; font-weight: 600; padding: 3px 8px; border-radius: 4px; font-size: 11px; }\n    .not-evaluated { background-color: #fff9c4; color: #f57f17; padding: 3px 8px; border-radius: 4px; font-size: 11px; }\n    .na { color: #a0aec0; font-style: italic; font-size: 13px; }\n    .table-container { overflow-x: auto; max-height: calc(100vh - 160px); }\n    a { color: var(--accent-color); text-decoration: none; }\n    a:hover { text-decoration: underline; }\n    @media (prefers-color-scheme: dark) {\n      .low-risk { background-color: #1b5e20; color: #a5d6a7; }\n      .medium-risk { background-color: #f57f17; color: #212121; }\n      .high-risk { background-color: #b71c1c; color: #ef9a9a; }\n      .not-evaluated { background-color: #f57f17; color: #212121; }\n      .na { color: #8b949e; }\n    }\n  </style>\n</head>\n<body>\n  <div class=\"header\">\n    <div class=\"header-content\">\n      <h1>Crate Metrics</h1>\n"@
}

/// The subtitle line of the header, with the date of the report.
pub open spec fn html_subtitle(date: Seq<char>) -> Seq<char> {
    "      <p class=\"subtitle\">Produced by cargo-aprz 0.1.0 on "@ + date + "</p>\n"@
}

/// The rest of the header: the picture and the theme button.
pub open spec fn html_banner() -> Seq<char> {
    "    </div>\n    <svg class=\"ferris\" viewBox=\"0 0 1200 800\" xmlns=\"http://www.w3.org/2000/svg\" style=\"fill-rule:evenodd;clip-rule:evenodd;stroke-linejoin:round;stroke-miterlimit:1.41421;\">\n      <g>\n        <g transform=\"matrix(1,0,0,1,654.172,668.359)\">\n          <path d=\"M0,-322.648C-114.597,-322.648 -218.172,-308.869 -296.172,-286.419L-296.172,-291.49C-374.172,-266.395 -423.853,-231.531 -423.853,-192.984C-423.853,-186.907 -422.508,-180.922 -420.15,-175.053L-428.134,-160.732C-428.134,-160.732 -434.547,-152.373 -423.199,-134.733C-413.189,-119.179 -363.035,-58.295 -336.571,-26.413C-325.204,-10.065 -317.488,0 -316.814,-0.973C-315.753,-2.516 -323.878,-33.202 -346.453,-68.215C-356.986,-87.02 -369.811,-111.934 -377.361,-130.335C-356.28,-116.993 -328.172,-104.89 -296.172,-94.474L-296.172,-94.633C-218.172,-72.18 -114.597,-58.404 0,-58.404C131.156,-58.404 248.828,-76.45 327.828,-104.895L327.828,-276.153C248.828,-304.6 131.156,-322.648 0,-322.648\" style=\"fill:rgb(165,43,0);fill-rule:nonzero;\"/>\n        </g>\n        <g transform=\"matrix(1,0,0,1,1099.87,554.94)\">\n          <path d=\"M0,-50.399L-13.433,-78.227C-13.362,-79.283 -13.309,-80.341 -13.309,-81.402C-13.309,-112.95 -46.114,-142.022 -101.306,-165.303L-101.306,2.499C-75.555,-8.365 -54.661,-20.485 -39.72,-33.538C-44.118,-15.855 -59.157,19.917 -71.148,45.073C-90.855,81.054 -97.993,112.376 -97.077,113.926C-96.493,114.904 -89.77,104.533 -79.855,87.726C-56.783,54.85 -13.063,-7.914 -4.325,-23.901C5.574,-42.024 0,-50.399 0,-50.399\" style=\"fill:rgb(165,43,0);fill-rule:nonzero;\"/>\n        </g>\n        <g transform=\"matrix(1,0,0,1,1177.87,277.21)\">\n          <path d=\"M0,227.175L-88.296,162.132C-89.126,159.237 -89.956,156.345 -90.812,153.474L-61.81,111.458C-58.849,107.184 -58.252,101.629 -60.175,96.755C-62.1,91.905 -66.311,88.428 -71.292,87.576L-120.335,79.255C-122.233,75.376 -124.225,71.557 -126.224,67.771L-105.62,20.599C-103.501,15.793 -103.947,10.209 -106.759,5.848C-109.556,1.465 -114.31,-1.094 -119.376,-0.895L-169.146,0.914C-171.723,-2.442 -174.34,-5.766 -177.012,-9.032L-165.574,-59.592C-164.415,-64.724 -165.876,-70.1 -169.453,-73.83C-173.008,-77.546 -178.175,-79.084 -183.089,-77.88L-231.567,-65.961C-234.707,-68.736 -237.897,-71.474 -241.126,-74.157L-239.381,-126.064C-239.193,-131.318 -241.643,-136.311 -245.849,-139.227C-250.053,-142.161 -255.389,-142.603 -259.987,-140.423L-305.213,-118.921C-308.853,-121.011 -312.515,-123.081 -316.218,-125.084L-324.209,-176.232C-325.021,-181.413 -328.355,-185.816 -333.024,-187.826C-337.679,-189.848 -343.014,-189.193 -347.101,-186.116L-387.422,-155.863C-391.392,-157.181 -395.38,-158.446 -399.418,-159.655L-416.798,-208.159C-418.564,-213.104 -422.64,-216.735 -427.608,-217.756C-432.561,-218.768 -437.656,-217.053 -441.091,-213.217L-475.029,-175.246C-479.133,-175.717 -483.239,-176.147 -487.356,-176.505L-513.564,-220.659C-516.22,-225.131 -520.908,-227.852 -525.961,-227.852C-531.002,-227.852 -535.7,-225.131 -538.333,-220.659L-564.547,-176.505C-568.666,-176.147 -572.791,-175.717 -576.888,-175.246L-610.831,-213.217C-614.268,-217.053 -619.382,-218.768 -624.318,-217.756C-629.284,-216.721 -633.363,-213.104 -635.124,-208.159L-652.517,-159.655C-656.544,-158.446 -660.534,-157.173 -664.514,-155.863L-704.822,-186.116C-708.92,-189.204 -714.254,-189.857 -718.92,-187.826C-723.57,-185.816 -726.917,-181.413 -727.723,-176.232L-735.72,-125.084C-739.42,-123.081 -743.083,-121.022 -746.734,-118.921L-791.956,-140.423C-796.548,-142.612 -801.908,-142.161 -806.091,-139.227C-810.292,-136.311 -812.747,-131.318 -812.557,-126.064L-810.821,-74.157C-814.04,-71.474 -817.224,-68.736 -820.379,-65.961L-868.849,-77.88C-873.774,-79.075 -878.935,-77.546 -882.499,-73.83C-886.084,-70.1 -887.538,-64.724 -886.384,-59.592L-874.969,-9.032C-877.618,-5.753 -880.239,-2.442 -882.808,0.914L-932.579,-0.895C-937.602,-1.043 -942.396,1.465 -945.202,5.848C-948.014,10.209 -948.439,15.793 -946.348,20.599L-925.729,67.771C-927.732,71.557 -929.721,75.376 -931.635,79.255L-980.675,87.576C-985.657,88.417 -989.858,91.892 -991.795,96.755C-993.72,101.629 -993.095,107.184 -990.156,111.458L-961.146,153.474C-961.37,154.215 -961.576,154.964 -961.799,155.707L-1043.82,242.829C-1043.82,242.829 -1056.38,252.68 -1038.09,275.831C-1021.95,296.252 -939.097,377.207 -895.338,419.62C-876.855,441.152 -864.195,454.486 -862.872,453.332C-860.784,451.5 -871.743,412.326 -908.147,366.362C-936.207,325.123 -972.625,261.696 -964.086,254.385C-964.086,254.385 -954.372,242.054 -934.882,233.178C-934.169,233.749 -935.619,232.613 -934.882,233.178C-934.882,233.178 -523.568,422.914 -142.036,236.388C-98.452,228.571 -72.068,251.917 -72.068,251.917C-62.969,257.193 -86.531,322.412 -105.906,365.583C-132.259,414.606 -136.123,452.859 -133.888,454.185C-132.479,455.027 -122.89,440.438 -109.214,417.219C-75.469,370.196 -11.675,280.554 0,258.781C13.239,234.094 0,227.175 0,227.175\" style=\"fill:rgb(247,76,0);fill-rule:nonzero;\"/>\n        </g>\n        <g transform=\"matrix(1,0,0,1,795.856,464.937)\">\n          <path d=\"M0,159.631C1.575,158.289 2.4,157.492 2.4,157.492L-132.25,144.985C-22.348,0 65.618,116.967 74.988,129.879L74.988,159.631L0,159.631Z\" style=\"fill-rule:nonzero;\"/>\n        </g>\n        <g transform=\"matrix(1,0,0,1,278.418,211.791)\">\n          <path d=\"M0,253.04C0,253.04 -111.096,209.79 -129.876,163.242C-129.876,163.242 0.515,59.525 -155.497,-50.644L-159.726,89.773C-159.726,89.773 -205.952,45.179 -203.912,-32.91C-203.912,-32.91 -347.685,36.268 -179.436,158.667C-179.436,158.667 -173.76,224.365 -22.459,303.684L0,253.04Z\" style=\"fill:rgb(247,76,0);fill-rule:nonzero;\"/>\n        </g>\n        <g transform=\"matrix(1,0,0,1,729.948,492.523)\">\n          <path d=\"M0,-87.016C0,-87.016 41.104,-132.025 82.21,-87.016C82.21,-87.016 114.507,-27.003 82.21,3C82.21,3 29.36,45.009 0,3C0,3 -35.232,-30.006 0,-87.016\" style=\"fill-rule:nonzero;\"/>\n        </g>\n        <g transform=\"matrix(1,0,0,1,777.536,422.196)\">\n          <path d=\"M0,0.008C0,17.531 -10.329,31.738 -23.07,31.738C-35.809,31.738 -46.139,17.531 -46.139,0.008C-46.139,-17.521 -35.809,-31.73 -23.07,-31.73C-10.329,-31.73 0,-17.521 0,0.008\" style=\"fill:white;fill-rule:nonzero;\"/>\n        </g>\n        <g transform=\"matrix(1,0,0,1,546.49,486.263)\">\n          <path d=\"M0,-93.046C0,-93.046 70.508,-124.265 89.753,-54.583C89.753,-54.583 109.912,26.635 31.851,31.219C31.851,31.219 -67.69,12.047 0,-93.046\" style=\"fill-rule:nonzero;\"/>\n        </g>\n        <g transform=\"matrix(1,0,0,1,581.903,423.351)\">\n          <path d=\"M0,0.002C0,18.074 -10.653,32.731 -23.794,32.731C-36.931,32.731 -47.586,18.074 -47.586,0.002C-47.586,-18.076 -36.931,-32.729 -23.794,-32.729C-10.653,-32.729 0,-18.076 0,0.002\" style=\"fill:white;fill-rule:nonzero;\"/>\n        </g>\n        <g transform=\"matrix(1,0,0,1,1002.23,778.679)\">\n          <path d=\"M0,-296.808C0,-296.808 -14.723,-238.165 -106.292,-176.541L-131.97,-170.523C-131.97,-170.523 -215.036,-322.004 -332.719,-151.302C-332.719,-151.302 -296.042,-172.656 -197.719,-146.652C-197.719,-146.652 -242.949,-77.426 -334.061,-79.553C-334.061,-79.553 -246.748,25.196 -113.881,-126.107C-113.881,-126.107 26.574,-180.422 37.964,-296.808L0,-296.808Z\" style=\"fill:rgb(247,76,0);fill-rule:nonzero;\"/>\n        </g>\n      </g>\n    </svg>\n    <button class=\"theme-toggle\" onclick=\"toggleTheme()\" aria-label=\"Toggle theme\">\n      <svg id=\"theme-icon\" viewBox=\"0 0 24 24\"><path d=\"M21 12.79A9 9 0 1 1 11.21 3 7 7 0 0 0 21 12.79z\"/></svg>\n    </button>\n  </div>\n"@
}

/// The opening of the table.
pub open spec fn html_table_open() -> Seq<char> {
    "  <div class=\"table-wrapper\">\n    <div class=\"table-container\">\n      <table>\n        <tbody>\n"@
}

/// The end of the page: the closing of the table and the theme script.
pub open spec fn html_tail() -> Seq<char> {
    "        </tbody>\n      </table>\n    </div>\n  </div>\n  <script>\n    function getSystemTheme() {\n      return window.matchMedia('(prefers-color-scheme: dark)').matches ? 'dark' : 'light';\n    }\n    function updateIcon(theme) {\n      const icon = document.getElementById('theme-icon');\n      if (theme === 'dark') {\n        icon.innerHTML = '<circle cx=\"12\" cy=\"12\" r=\"4\" fill=\"currentColor\"/><path d=\"M12 1v2m0 18v2M4.22 4.22l1.42 1.42m12.72 12.72l1.42 1.42M1 12h2m18 0h2M4.22 19.78l1.42-1.42m12.72-12.72l1.42-1.42\" stroke=\"currentColor\" stroke-width=\"2\" stroke-linecap=\"round\"/>';\n      } else {\n        icon.innerHTML = '<path d=\"M21 12.79A9 9 0 1 1 11.21 3 7 7 0 0 0 21 12.79z\"/>';\n      }\n    }\n    function applyTheme(theme) {\n      document.body.classList.remove('dark-theme', 'light-theme');\n      document.body.classList.add(theme + '-theme');\n      updateIcon(theme);\n    }\n    function toggleTheme() {\n      const currentTheme = localStorage.getItem('theme') || getSystemTheme();\n      const newTheme = currentTheme === 'dark' ? 'light' : 'dark';\n      localStorage.setItem('theme', newTheme);\n      applyTheme(newTheme);\n    }\n    const savedTheme = localStorage.getItem('theme');\n    applyTheme(savedTheme || getSystemTheme());\n  </script>\n</body>\n</html>\n"@
}

/// A spacer row of a table with `n` crate columns.
pub open spec fn spacer_row(n: nat) -> Seq<char> {
    spacer_open() + empty_cells(n + 1) + row_close()
}

/// The mark of a missing value.
pub open spec fn na_span() -> Seq<char> {
    "<span class=\"na\">n/a</span>"@
}

/// The opening line of a metric row.
pub open spec fn metric_row_open() -> Seq<char> {
    "          <tr class=\"metric-row\">\n"@
}

/// The opening of a plain cell.
pub open spec fn cell_open() -> Seq<char> {
    "            <td>"@
}

/// The closing of a cell.
pub open spec fn cell_close() -> Seq<char> {
    "</td>\n"@
}

/// The style class of an outcome.
pub open spec fn outcome_class(accepted: bool) -> Seq<char> {
    if accepted { "low-risk"@ } else { "high-risk"@ }
}

/// A crate's cell of the appraisal row.
pub open spec fn html_status_cell(c: ReportableCrate) -> Seq<char> {
    cell_open() + (match c.evaluation {
        Some(e) => "<span class=\""@ + outcome_class(e.accepted) + "\">"@ + status_text(e.accepted) + "</span>"@,
        None => na_span(),
    }) + cell_close()
}

/// A reason, escaped.
pub open spec fn reason_span(r: Seq<char>) -> Seq<char> {
    "<span>"@ + html_text(r) + "</span>"@
}

/// A crate's cell of the reasons row: its reasons one per line.
pub open spec fn html_reasons_cell(c: ReportableCrate) -> Seq<char> {
    cell_open() + (match c.evaluation {
        Some(e) => if e.reasons@.len() == 0 {
            na_span()
        } else {
            join(e.reason_texts().map_values(|r: Seq<char>| reason_span(r)), "<br>"@)
        },
        None => na_span(),
    }) + cell_close()
}

/// The appraisal row, the reasons row and a spacer row.
pub open spec fn html_evaluation_rows(cs: Seq<ReportableCrate>) -> Seq<char> {
    metric_row_open() + "            <td><strong>Appraisals</strong></td>\n"@
        + concat(cs.map_values(|c: ReportableCrate| html_status_cell(c))) + row_close()
        + metric_row_open() + "            <td><strong>Reasons</strong></td>\n"@
        + concat(cs.map_values(|c: ReportableCrate| html_reasons_cell(c))) + row_close()
        + spacer_row(cs.len())
}

/// The metrics of each crate.
pub open spec fn crate_metrics(cs: Seq<ReportableCrate>) -> Seq<Seq<Metric>> {
    cs.map_values(|c: ReportableCrate| c.metrics@)
}

/// The metric names of a category over all the crates: each name once,
/// under the category of its first occurrence, in the order first met.
pub open spec fn html_names(cs: Seq<ReportableCrate>, cat: MetricCategory) -> Seq<Seq<char>> {
    first_names_in(flatten(crate_metrics(cs)), cat)
}

/// Whether one of the first `k` categories has metrics.
pub open spec fn present_before(cs: Seq<ReportableCrate>, k: int) -> bool
    decreases k,
{
    if k <= 0 {
        false
    } else {
        present_before(cs, k - 1) || html_names(cs, category_at(k - 1)).len() > 0
    }
}

/// The description of a metric: that of the first crate's metric of that
/// name, the name itself when the first crate has none.
pub open spec fn description(cs: Seq<ReportableCrate>, name: Seq<char>) -> Seq<char> {
    if cs.len() == 0 {
        name
    } else {
        match last_metric(cs[0].metrics@, name, cs[0].metrics@.len() as int) {
            Some(i) => cs[0].metrics@[i].def.description@,
            None => name,
        }
    }
}

/// Whether a metric holds keywords: its name, lowercased, has `keyword`.
pub open spec fn keyword_metric(name: Seq<char>) -> bool {
    contains_seq(unicode_lowercase(name), seq!['k', 'e', 'y', 'w', 'o', 'r', 'd'])
}

/// Whether a metric holds categories: its name, lowercased, has `categor`.
pub open spec fn category_list_metric(name: Seq<char>) -> bool {
    contains_seq(unicode_lowercase(name), seq!['c', 'a', 't', 'e', 'g', 'o', 'r'])
}

/// Whether a text is a link.
pub open spec fn url_text(t: Seq<char>) -> bool {
    starts_with(t, http_prefix()) || starts_with(t, https_prefix())
}

/// A value's text as HTML: keyword and category lists as links to their
/// crates.io pages, a URL as a link, anything else escaped.
pub open spec fn value_html(t: Seq<char>, name: Seq<char>) -> Seq<char> {
    if keyword_metric(name) {
        keyword_links(t, "keywords"@)
    } else if category_list_metric(name) {
        keyword_links(t, "categories"@)
    } else if url_text(t) {
        "<a href=\""@ + html_text(t) + "\" target=\"_blank\" rel=\"noopener noreferrer\">"@ + html_text(t) + "</a>"@
    } else {
        html_text(t)
    }
}

/// The HTML of a crate's value of the metric `name` (of its last metric of
/// that name), `n/a` when it has none.
pub open spec fn html_value(ms: Seq<Metric>, name: Seq<char>) -> Seq<char> {
    match last_metric(ms, name, ms.len() as int) {
        Some(i) => match ms[i].value {
            Some(v) => value_html(value_text(v), name),
            None => na_span(),
        },
        None => na_span(),
    }
}

/// The tooltip of a value cell: the crate, the metric and its description.
pub open spec fn tooltip(c: ReportableCrate, name: Seq<char>, desc: Seq<char>) -> Seq<char> {
    crate_title(c) + "\n"@ + name + "\n"@ + desc
}

/// A crate's cell of the row of the metric `name`.
pub open spec fn html_value_cell(c: ReportableCrate, name: Seq<char>, desc: Seq<char>) -> Seq<char> {
    "            <td title=\""@ + html_text(tooltip(c, name, desc)) + "\">"@ + html_value(c.metrics@, name) + cell_close()
}

/// The row of the metric `name`.
pub open spec fn html_metric_row(cs: Seq<ReportableCrate>, name: Seq<char>) -> Seq<char> {
    let desc = description(cs, name);
    metric_row_open() + "            <td title=\""@ + html_text(desc) + "\">"@ + html_text(name) + cell_close()
        + concat(cs.map_values(|c: ReportableCrate| html_value_cell(c, name, desc))) + row_close()
}

/// The header row of a category.
pub open spec fn category_header(n: nat, cat: MetricCategory) -> Seq<char> {
    "          <tr class=\"category-header\">\n"@ + cell_open() + category_name(cat) + cell_close()
        + empty_cells(n) + row_close()
}

/// The rows of the `k`-th category, when some crate has metrics in it,
/// after a spacer row unless it is the first such category.
pub open spec fn html_category(cs: Seq<ReportableCrate>, k: int) -> Seq<char> {
    let names = html_names(cs, category_at(k));
    if names.len() == 0 {
        Seq::empty()
    } else {
        (if present_before(cs, k) { spacer_row(cs.len()) } else { Seq::empty() })
            + category_header(cs.len(), category_at(k))
            + concat(names.map_values(|n: Seq<char>| html_metric_row(cs, n)))
    }
}

/// The HTML report of the crates, dated `date`.
pub open spec fn html_document(cs: Seq<ReportableCrate>, date: Seq<char>) -> Seq<char> {
    html_head() + html_subtitle(date) + html_banner() + html_table_open()
        + (if any_evaluated(cs) { html_evaluation_rows(cs) } else { Seq::empty() })
        + concat(Seq::new(9, |k: int| html_category(cs, k)))
        + html_tail()
}

/// A text that starts with a prefix still does with more after it.
proof fn lemma_starts_with_more(a: Seq<char>, b: Seq<char>, p: Seq<char>)
    requires
        starts_with(a, p),
    ensures
        starts_with(a + b, p),
{
    assert((a + b).subrange(0, p.len() as int) =~= a.subrange(0, p.len() as int));
}

/// The links of a list of items start with the link of the first.
proof fn lemma_item_links_first(url_type: Seq<char>, items: Seq<Seq<char>>)
    requires
        items.len() > 0,
    ensures
        starts_with(item_links(url_type, items), item_link(url_type, items[0])),
    decreases items.len(),
{
    if items.len() == 1 {
        let l = item_link(url_type, items[0]);
        assert(l.subrange(0, l.len() as int) =~= l);
    } else {
        lemma_item_links_first(url_type, items.drop_last());
        let last = item_link(url_type, items.last());
        lemma_starts_with_more(item_links(url_type, items.drop_last()), seq![',', ' '] + last, item_link(url_type, items[0]));
        assert(item_links(url_type, items) =~= item_links(url_type, items.drop_last()) + (seq![',', ' '] + last));
    }
}

/// A link of an item starts with the crates.io page address of its kind.
proof fn lemma_item_link_page(url_type: Seq<char>, item: Seq<char>)
    ensures
        starts_with(item_link(url_type, item), "<a href=\"https://crates.io/"@ + url_type + seq!['/']),
{
    let p = "<a href=\"https://crates.io/"@ + url_type + seq!['/'];
    let rest = percent_encoded(utf8(item)) + "\" target=\"_blank\" rel=\"noopener noreferrer\">#"@ + html_text(item) + "</a>"@;
    assert(item_link(url_type, item) =~= p + rest);
    assert((p + rest).subrange(0, p.len() as int) =~= p);
}

/// The links of a list of items start with the crates.io page address of
/// their kind.
proof fn lemma_links_page(url_type: Seq<char>, items: Seq<Seq<char>>)
    requires
        items.len() > 0,
    ensures
        starts_with(item_links(url_type, items), "<a href=\"https://crates.io/"@ + url_type + seq!['/']),
{
    lemma_item_links_first(url_type, items);
    lemma_item_link_page(url_type, items[0]);
    let p = "<a href=\"https://crates.io/"@ + url_type + seq!['/'];
    let l = item_link(url_type, items[0]);
    let v = item_links(url_type, items);
    assert(v.subrange(0, p.len() as int) =~= l.subrange(0, p.len() as int));
}

/// The address of the category pages.
proof fn lemma_category_page_address()
    ensures
        "<a href=\"https://crates.io/"@ + "categories"@ + seq!['/'] == "<a href=\"https://crates.io/categories/"@,
{
    reveal_strlit("<a href=\"https://crates.io/");
    reveal_strlit("categories");
    reveal_strlit("<a href=\"https://crates.io/categories/");
    assert("<a href=\"https://crates.io/"@ + "categories"@ + seq!['/'] =~= "<a href=\"https://crates.io/categories/"@);
}

/// The address of the keyword pages.
proof fn lemma_keyword_page_address()
    ensures
        "<a href=\"https://crates.io/"@ + "keywords"@ + seq!['/'] == "<a href=\"https://crates.io/keywords/"@,
{
    reveal_strlit("<a href=\"https://crates.io/");
    reveal_strlit("keywords");
    reveal_strlit("<a href=\"https://crates.io/keywords/");
    assert("<a href=\"https://crates.io/"@ + "keywords"@ + seq!['/'] =~= "<a href=\"https://crates.io/keywords/"@);
}

/// The value cell of a category list links to category pages: for a metric
/// whose name speaks of categories and not of keywords, the cell holds the
/// links of its comma-separated items to their crates.io category pages
/// (the escaped text when no item is left), and, when it has an item, it
/// starts with a link to `https://crates.io/categories/`.
pub proof fn lemma_category_values_link_category_pages(t: Seq<char>, name: Seq<char>)
    requires
        category_list_metric(name),
        !keyword_metric(name),
    ensures
        value_html(t, name) == keyword_links(t, "categories"@),
        nonempty_items(split_on(t, ',')).len() > 0
            ==> starts_with(value_html(t, name), "<a href=\"https://crates.io/categories/"@),
{
    let items = nonempty_items(split_on(t, ','));
    if items.len() > 0 {
        lemma_links_page("categories"@, items);
        lemma_category_page_address();
    }
}

/// The value cell of a keyword list links to keyword pages: for a metric
/// whose name speaks of keywords, the cell holds the links of its
/// comma-separated items to their crates.io keyword pages (the escaped
/// text when no item is left), and, when it has an item, it starts with a
/// link to `https://crates.io/keywords/`.
pub proof fn lemma_keyword_values_link_keyword_pages(t: Seq<char>, name: Seq<char>)
    requires
        keyword_metric(name),
    ensures
        value_html(t, name) == keyword_links(t, "keywords"@),
        nonempty_items(split_on(t, ',')).len() > 0
            ==> starts_with(value_html(t, name), "<a href=\"https://crates.io/keywords/"@),
{
    let items = nonempty_items(split_on(t, ','));
    if items.len() > 0 {
        lemma_links_page("keywords"@, items);
        lemma_keyword_page_address();
    }
}

/// Appends the mark of a missing value.
fn push_na(out: &mut String)
    ensures
        final(out)@ == old(out)@ + na_span(),
{
    push_str(out, "<span class=\"na\">n/a</span>");
}

/// Appends a value's text as HTML.
fn push_value_html(out: &mut String, t: &str, name: &str)
    ensures
        final(out)@ == old(out)@ + value_html(t@, name@),
{
    if is_keywords_metric(name) {
        format_keywords_or_categories(t, "keywords", out);
    } else if is_categories_metric(name) {
        format_keywords_or_categories(t, "categories", out);
    } else if is_url(t) {
        let e = html_escape(t);
        push_str(out, "<a href=\"");
        push_str(out, e.as_str());
        push_str(out, "\" target=\"_blank\" rel=\"noopener noreferrer\">");
        push_str(out, e.as_str());
        push_str(out, "</a>");
    } else {
        let e = html_escape(t);
        push_str(out, e.as_str());
    }
}

/// The position of the last metric named `name`.
fn last_metric_index(ms: &[Metric], name: &str) -> (r: Option<usize>)
    ensures
        match (r, last_metric(ms@, name@, ms@.len() as int)) {
            (Some(a), Some(b)) => a == b && a < ms@.len(),
            (None, None) => true,
            _ => false,
        },
{
    let mut found: Option<usize> = None;
    let mut i: usize = 0;
    while i < ms.len()
        invariant
            i <= ms@.len(),
            match (found, last_metric(ms@, name@, i as int)) {
                (Some(a), Some(b)) => a == b && a < i,
                (None, None) => true,
                _ => false,
            },
        decreases ms@.len() - i,
    {
        if same_text(ms[i].def.name, name) {
            found = Some(i);
        }
        i = i + 1;
    }
    found
}

/// The description of a metric (see `description`).
fn description_of<'a>(cs: &'a [ReportableCrate], name: &'a str) -> (r: &'a str)
    ensures
        r@ == description(cs@, name@),
{
    if cs.len() == 0 {
        return name;
    }
    let ms = cs[0].metrics.as_slice();
    match last_metric_index(ms, name) {
        Some(i) => ms[i].def.description,
        None => name,
    }
}

/// Appends the HTML of a crate's value of a metric.
fn push_html_value(out: &mut String, ms: &[Metric], name: &str)
    ensures
        final(out)@ == old(out)@ + html_value(ms@, name@),
{
    match last_metric_index(ms, name) {
        Some(i) => match &ms[i].value {
            Some(v) => {
                let t = format_metric_value(v);
                push_value_html(out, t.as_str(), name);
            },
            None => push_na(out),
        },
        None => push_na(out),
    }
}

/// Appends a crate's cell of the row of a metric.
fn push_value_cell(out: &mut String, c: &ReportableCrate, name: &str, desc: &str)
    ensures
        final(out)@ == old(out)@ + html_value_cell(*c, name@, desc@),
{
    let mut tip = crate_title_text(c);
    push_str(&mut tip, "\n");
    push_str(&mut tip, name);
    push_str(&mut tip, "\n");
    push_str(&mut tip, desc);
    let e = html_escape(tip.as_str());
    push_str(out, "            <td title=\"");
    push_str(out, e.as_str());
    push_str(out, "\">");
    push_html_value(out, c.metrics.as_slice(), name);
    push_str(out, "</td>\n");
}

/// Appends the row of a metric.
fn push_metric_row(out: &mut String, cs: &[ReportableCrate], name: &str)
    ensures
        final(out)@ == old(out)@ + html_metric_row(cs@, name@),
{
    let desc = description_of(cs, name);
    let ghost start = out@;
    push_str(out, "          <tr class=\"metric-row\">\n");
    push_str(out, "            <td title=\"");
    let d = html_escape(desc);
    push_str(out, d.as_str());
    push_str(out, "\">");
    let n = html_escape(name);
    push_str(out, n.as_str());
    push_str(out, "</td>\n");
    let ghost mid = out@;
    let ghost parts = cs@.map_values(|c: ReportableCrate| html_value_cell(c, name@, desc@));
    let mut i: usize = 0;
    while i < cs.len()
        invariant
            i <= cs@.len(),
            parts == cs@.map_values(|c: ReportableCrate| html_value_cell(c, name@, desc@)),
            out@ == mid + concat(parts.take(i as int)),
        decreases cs@.len() - i,
    {
        proof { lemma_concat_take(parts, i as int); }
        push_value_cell(out, &cs[i], name, desc);
        i = i + 1;
    }
    assert(parts.take(cs@.len() as int) =~= parts);
    push_str(out, "          </tr>\n");
    assert(out@ =~= start + html_metric_row(cs@, name@));
}

/// Appends a crate's cell of the appraisal row.
fn push_status_cell(out: &mut String, c: &ReportableCrate)
    ensures
        final(out)@ == old(out)@ + html_status_cell(*c),
{
    let ghost start = out@;
    push_str(out, "            <td>");
    match &c.evaluation {
        Some(e) => {
            push_str(out, "<span class=\"");
            if e.accepted {
                push_str(out, "low-risk");
            } else {
                push_str(out, "high-risk");
            }
            push_str(out, "\">");
            push_str(out, format_acceptance_status(e.accepted));
            push_str(out, "</span>");
        },
        None => push_na(out),
    }
    push_str(out, "</td>\n");
    assert(out@ =~= start + html_status_cell(*c));
}

/// Appends a crate's cell of the reasons row.
fn push_reasons_cell(out: &mut String, c: &ReportableCrate)
    ensures
        final(out)@ == old(out)@ + html_reasons_cell(*c),
{
    let ghost start = out@;
    push_str(out, "            <td>");
    match &c.evaluation {
        Some(e) => {
            if e.reasons.len() == 0 {
                push_na(out);
            } else {
                let ghost spans = e.reason_texts().map_values(|r: Seq<char>| reason_span(r));
                let ghost mid = out@;
                let mut i: usize = 0;
                while i < e.reasons.len()
                    invariant
                        i <= e.reasons@.len(),
                        spans == e.reason_texts().map_values(|r: Seq<char>| reason_span(r)),
                        out@ == mid + join(spans.take(i as int), "<br>"@),
                    decreases e.reasons@.len() - i,
                {
                    proof {
                        lemma_join_push(spans.take(i as int), "<br>"@, spans[i as int]);
                        assert(spans.take(i + 1) =~= spans.take(i as int).push(spans[i as int]));
                    }
                    if i > 0 {
                        push_str(out, "<br>");
                    }
                    let t = html_escape(e.reasons[i].as_str());
                    push_str(out, "<span>");
                    push_str(out, t.as_str());
                    push_str(out, "</span>");
                    i = i + 1;
                }
                assert(spans.take(e.reasons@.len() as int) =~= spans);
            }
        },
        None => push_na(out),
    }
    push_str(out, "</td>\n");
    assert(out@ =~= start + html_reasons_cell(*c));
}

/// Appends the appraisal row, the reasons row and a spacer row.
fn push_evaluation_rows(out: &mut String, cs: &[ReportableCrate])
    ensures
        final(out)@ == old(out)@ + html_evaluation_rows(cs@),
{
    let ghost start = out@;
    let ghost status = cs@.map_values(|c: ReportableCrate| html_status_cell(c));
    let ghost reasons = cs@.map_values(|c: ReportableCrate| html_reasons_cell(c));
    push_str(out, "          <tr class=\"metric-row\">\n");
    push_str(out, "            <td><strong>Appraisals</strong></td>\n");
    let ghost a = out@;
    let mut i: usize = 0;
    while i < cs.len()
        invariant
            i <= cs@.len(),
            status == cs@.map_values(|c: ReportableCrate| html_status_cell(c)),
            out@ == a + concat(status.take(i as int)),
        decreases cs@.len() - i,
    {
        proof { lemma_concat_take(status, i as int); }
        push_status_cell(out, &cs[i]);
        i = i + 1;
    }
    assert(status.take(cs@.len() as int) =~= status);
    push_str(out, "          </tr>\n");
    push_str(out, "          <tr class=\"metric-row\">\n");
    push_str(out, "            <td><strong>Reasons</strong></td>\n");
    let ghost b = out@;
    let mut j: usize = 0;
    while j < cs.len()
        invariant
            j <= cs@.len(),
            reasons == cs@.map_values(|c: ReportableCrate| html_reasons_cell(c)),
            out@ == b + concat(reasons.take(j as int)),
        decreases cs@.len() - j,
    {
        proof { lemma_concat_take(reasons, j as int); }
        push_reasons_cell(out, &cs[j]);
        j = j + 1;
    }
    assert(reasons.take(cs@.len() as int) =~= reasons);
    push_str(out, "          </tr>\n");
    write_spacer_row(out, cs.len());
    assert(out@ =~= start + html_evaluation_rows(cs@));
}

/// Appends the header row of a category.
fn push_category_header(out: &mut String, n: usize, cat: MetricCategory)
    ensures
        final(out)@ == old(out)@ + category_header(n as nat, cat),
{
    let ghost start = out@;
    push_str(out, "          <tr class=\"category-header\">\n");
    push_str(out, "            <td>");
    push_str(out, cat.name());
    push_str(out, "</td>\n");
    let ghost mid = out@;
    let mut i: usize = 0;
    assert(empty_cells(0) =~= Seq::<char>::empty());
    while i < n
        invariant
            i <= n,
            out@ == mid + empty_cells(i as nat),
        decreases n - i,
    {
        push_str(out, "            <td></td>\n");
        assert(out@ =~= mid + empty_cells(i as nat + 1));
        i = i + 1;
    }
    push_str(out, "          </tr>\n");
    assert(out@ =~= start + category_header(n as nat, cat));
}

/// Appends the rows of the `k`-th category, whose names are `names`.
fn push_category(out: &mut String, cs: &[ReportableCrate], k: usize, cat: MetricCategory, names: &Vec<String>, seen: bool)
    requires
        k < 9,
        cat == category_at(k as int),
        names@.map_values(|n: String| n@) == html_names(cs@, cat),
        names@.len() > 0,
        seen == present_before(cs@, k as int),
    ensures
        final(out)@ == old(out)@ + html_category(cs@, k as int),
{
    let ghost start = out@;
    let ghost nv = names@.map_values(|n: String| n@);
    if seen {
        write_spacer_row(out, cs.len());
    }
    push_category_header(out, cs.len(), cat);
    let ghost mid = out@;
    let ghost parts = nv.map_values(|n: Seq<char>| html_metric_row(cs@, n));
    let mut i: usize = 0;
    while i < names.len()
        invariant
            i <= names@.len(),
            nv == names@.map_values(|n: String| n@),
            parts == nv.map_values(|n: Seq<char>| html_metric_row(cs@, n)),
            out@ == mid + concat(parts.take(i as int)),
        decreases names@.len() - i,
    {
        proof { lemma_concat_take(parts, i as int); }
        assert(nv[i as int] == names@[i as int]@);
        push_metric_row(out, cs, names[i].as_str());
        i = i + 1;
    }
    assert(parts.take(names@.len() as int) =~= parts);
    assert(out@ =~= start + html_category(cs@, k as int));
}

/// Appends the HTML report of the crates, dated `date_text` (see
/// `html_document`).
pub fn html_report(crates: &[ReportableCrate], date_text: &str, out: &mut String)
    ensures
        final(out)@ == old(out)@ + html_document(crates@, date_text@),
{
    let ghost start = out@;
    push_str(out, "<!DOCTYPE html>\n<html>\n<head>\n  <meta charset=\"UTF-8\">\n  <title>Crate Metrics</title>\n  <link rel=\"icon\" type=\"image/svg+xml\" href=\"data:image/svg+xml,%3Csvg viewBox='0 0 1200 800' xmlns='http://www.w3.org/2000/svg'%3E%3Cg%3E%3Cg transform='matrix(1,0,0,1,654.172,668.359)'%3E%3Cpath d='M0,-322.648C-114.597,-322.648 -218.172,-308.869 -296.172,-286.419L-296.172,-291.49C-374.172,-266.395 -423.853,-231.531 -423.853,-192.984C-423.853,-186.907 -422.508,-180.922 -420.15,-175.053L-428.134,-160.732C-428.134,-160.732 -434.547,-152.373 -423.199,-134.733C-413.189,-119.179 -363.035,-58.295 -336.571,-26.413C-325.204,-10.065 -317.488,0 -316.814,-0.973C-315.753,-2.516 -323.878,-33.202 -346.453,-68.215C-356.986,-87.02 -369.811,-111.934 -377.361,-130.335C-356.28,-116.993 -328.172,-104.89 -296.172,-94.474L-296.172,-94.633C-218.172,-72.18 -114.597,-58.404 0,-58.404C131.156,-58.404 248.828,-76.45 327.828,-104.895L327.828,-276.153C248.828,-304.6 131.156,-322.648 0,-322.648' fill='%23a52b00'/%3E%3C/g%3E%3Cg transform='matrix(1,0,0,1,1177.87,277.21)'%3E%3Cpath d='M0,227.175L-88.296,162.132C-89.126,159.237 -89.956,156.345 -90.812,153.474L-61.81,111.458C-58.849,107.184 -58.252,101.629 -60.175,96.755C-62.1,91.905 -66.311,88.428 -71.292,87.576L-120.335,79.255C-122.233,75.376 -124.225,71.557 -126.224,67.771L-105.62,20.599C-103.501,15.793 -103.947,10.209 -106.759,5.848C-109.556,1.465 -114.31,-1.094 -119.376,-0.895L-169.146,0.914C-171.723,-2.442 -174.34,-5.766 -177.012,-9.032L-165.574,-59.592C-164.415,-64.724 -165.876,-70.1 -169.453,-73.83C-173.008,-77.546 -178.175,-79.084 -183.089,-77.88L-231.567,-65.961C-234.707,-68.736 -237.897,-71.474 -241.126,-74.157L-239.381,-126.064C-239.193,-131.318 -241.643,-136.311 -245.849,-139.227C-250.053,-142.161 -255.389,-142.603 -259.987,-140.423L-305.213,-118.921C-308.853,-121.011 -312.515,-123.081 -316.218,-125.084L-324.209,-176.232C-325.021,-181.413 -328.355,-185.816 -333.024,-187.826C-337.679,-189.848 -343.014,-189.193 -347.101,-186.116L-387.422,-155.863C-391.392,-157.181 -395.38,-158.446 -399.418,-159.655L-416.798,-208.159C-418.564,-213.104 -422.64,-216.735 -427.608,-217.756C-432.561,-218.768 -437.656,-217.053 -441.091,-213.217L-475.029,-175.246C-479.133,-175.717 -483.239,-176.147 -487.356,-176.505L-513.564,-220.659C-516.22,-225.131 -520.908,-227.852 -525.961,-227.852C-531.002,-227.852 -535.7,-225.131 -538.333,-220.659L-564.547,-176.505C-568.666,-176.147 -572.791,-175.717 -576.888,-175.246L-610.831,-213.217C-614.268,-217.053 -619.382,-218.768 -624.318,-217.756C-629.284,-216.721 -633.363,-213.104 -635.124,-208.159L-652.517,-159.655C-656.544,-158.446 -660.534,-157.173 -664.514,-155.863L-704.822,-186.116C-708.92,-189.204 -714.254,-189.857 -718.92,-187.826C-723.57,-185.816 -726.917,-181.413 -727.723,-176.232L-735.72,-125.084C-739.42,-123.081 -743.083,-121.022 -746.734,-118.921L-791.956,-140.423C-796.548,-142.612 -801.908,-142.161 -806.091,-139.227C-810.292,-136.311 -812.747,-131.318 -812.557,-126.064L-810.821,-74.157C-814.04,-71.474 -817.224,-68.736 -820.379,-65.961L-868.849,-77.88C-873.774,-79.075 -878.935,-77.546 -882.499,-73.83C-886.084,-70.1 -887.538,-64.724 -886.384,-59.592L-874.969,-9.032C-877.618,-5.753 -880.239,-2.442 -882.808,0.914L-932.579,-0.895C-937.602,-1.043 -942.396,1.465 -945.202,5.848C-948.014,10.209 -948.439,15.793 -946.348,20.599L-925.729,67.771C-927.732,71.557 -929.721,75.376 -931.635,79.255L-980.675,87.576C-985.657,88.417 -989.858,91.892 -991.795,96.755C-993.72,101.629 -993.095,107.184 -990.156,111.458L-961.146,153.474C-961.37,154.215 -961.576,154.964 -961.799,155.707L-1043.82,242.829C-1043.82,242.829 -1056.38,252.68 -1038.09,275.831C-1021.95,296.252 -939.097,377.207 -895.338,419.62C-876.855,441.152 -864.195,454.486 -862.872,453.332C-860.784,451.5 -871.743,412.326 -908.147,366.362C-936.207,325.123 -972.625,261.696 -964.086,254.385C-964.086,254.385 -954.372,242.054 -934.882,233.178C-934.169,233.749 -935.619,232.613 -934.882,233.178C-934.882,233.178 -523.568,422.914 -142.036,236.388C-98.452,228.571 -72.068,251.917 -72.068,251.917C-62.969,257.193 -86.531,322.412 -105.906,365.583C-132.259,414.606 -136.123,452.859 -133.888,454.185C-132.479,455.027 -122.89,440.438 -109.214,417.219C-75.469,370.196 -11.675,280.554 0,258.781C13.239,234.094 0,227.175 0,227.175' fill='%23f74c00'/%3E%3C/g%3E%3C/g%3E%3C/svg%3E\">\n  <style>\n    :root {\n      --bg-color: #e5e7eb;\n      --card-bg: #ffffff;\n      --text-color: #1a202c;\n      --border-color: #e2e8f0;\n      --category-bg: #fed7aa;\n      --category-border: #cbd5e0;\n      --hover-bg: rgba(66, 153, 225, 0.04);\n      --metric-cell-bg: #fafafa;\n      --accent-color: #4299e1;\n    }\n    @media (prefers-color-scheme: dark) {\n      :root {\n        --bg-color: #374151;\n        --card-bg: #000000;\n        --text-color: #e5e7eb;\n        --border-color: #4b5563;\n        --category-bg: #a52b00;\n        --category-border: #6b7280;\n        --hover-bg: rgba(99, 179, 237, 0.08);\n        --metric-cell-bg: #0a0a0a;\n        --accent-color: #60a5fa;\n      }\n    }\n    body.dark-theme {\n      --bg-color: #374151;\n      --card-bg: #000000;\n      --text-color: #e5e7eb;\n      --border-color: #4b5563;\n      --category-bg: #a52b00;\n      --category-border: #6b7280;\n      --hover-bg: rgba(99, 179, 237, 0.08);\n      --metric-cell-bg: #0a0a0a;\n      --accent-color: #60a5fa;\n    }\n    body.light-theme {\n      --bg-color: #e5e7eb;\n      --card-bg: #ffffff;\n      --text-color: #1a202c;\n      --border-color: #e2e8f0;\n      --category-bg: #fed7aa;\n      --category-border: #cbd5e0;\n      --hover-bg: rgba(66, 153, 225, 0.04);\n      --metric-cell-bg: #fafafa;\n      --accent-color: #4299e1;\n    }\n    body { font-family: -apple-system, BlinkMacSystemFont, 'Segoe UI', Helvetica, Arial, sans-serif; margin: 0; padding: 32px; background-color: var(--bg-color); color: var(--text-color); transition: background-color 0.3s ease, color 0.3s ease; }\n    body.dark-theme { color-scheme: dark; }\n    body.light-theme { color-scheme: light; }\n    .header { display: grid; grid-template-columns: 1fr auto 1fr; align-items: flex-start; gap: 20px; margin-bottom: 32px; }\n    .header-content {}\n    h1 { color: var(--text-color); margin-bottom: 4px; font-size: 28px; font-weight: 600; letter-spacing: -0.5px; margin-top: 0; }\n    .subtitle { color: var(--text-color); font-size: 13px; opacity: 0.6; margin-top: 0; margin-bottom: 0; font-weight: 400; }\n    .ferris { width: 60px; height: 40px; margin: 0 20px; flex-shrink: 0; }\n    .theme-toggle { background: none; border: 2px solid var(--border-color); border-radius: 8px; width: 44px; height: 44px; cursor: pointer; display: flex; align-items: center; justify-content: center; transition: all 0.2s ease; flex-shrink: 0; justify-self: end; }\n    .theme-toggle:hover { border-color: var(--accent-color); background-color: var(--hover-bg); }\n    .theme-toggle svg { width: 20px; height: 20px; fill: var(--text-color); opacity: 0.8; }\n    .table-wrapper { background-color: var(--card-bg); border-radius: 12px; box-shadow: 0 1px 3px rgba(0,0,0,0.06), 0 4px 12px rgba(0,0,0,0.04); overflow: hidden; }\n    table { border-collapse: collapse; width: 100%; background-color: var(--card-bg); }\n    td { border-bottom: 1px solid var(--border-color); padding: 14px 16px; text-align: left; font-size: 14px; }\n    .category-header { background-color: var(--category-bg); font-weight: bold; font-size: 11px; letter-spacing: 0.8px; text-transform: uppercase; color: var(--text-color); opacity: 0.8; height: 44px; }\n    .category-header td { padding: 12px 16px; border-top: 3px solid var(--category-border); border-bottom: 1px solid var(--category-border); }\n    .category-spacer { height: 16px; }\n    .category-spacer td { background-color: var(--bg-color); border: none; padding: 0; }\n    .category-header td:first-child { position: sticky; left: 0; z-index: 15; background-color: var(--category-bg); border-right: 1px solid var(--border-color); }\n    .category-header td:not(:first-child) { background-color: var(--category-bg); }\n    .metric-row:hover { background-color: var(--hover-bg); }\n    .metric-row td:first-child { font-weight: 500; background-color: var(--metric-cell-bg); position: sticky; left: 0; z-index: 5; border-right: 1px solid var(--border-color); }\n    .metric-row:hover td:first-child { background-color: var(--hover-bg); }\n    .metric-row:last-child td { border-bottom: none; }\n    .low-risk { background-color: #c8e6c9; color: #2e7d32; font-weight: 600; padding: 3px 8px; border-radius: 4px; font-size: 11px; }\n    .medium-risk { background-color: #fff9c4; color: #f57f17; font-weight: 600; padding: 3px 8px; border-radius: 4px; font-size: 11px; }\n    .high-risk { background-color: #ffcdd2; color: #c62828; font-weight: 600; padding: 3px 8px; border-radius: 4px; font-size: 11px; }\n    .not-evaluated { background-color: #fff9c4; color: #f57f17; padding: 3px 8px; border-radius: 4px; font-size: 11px; }\n    .na { color: #a0aec0; font-style: italic; font-size: 13px; }\n    .table-container { overflow-x: auto; max-height: calc(100vh - 160px); }\n    a { color: var(--accent-color); text-decoration: none; }\n    a:hover { text-decoration: underline; }\n    @media (prefers-color-scheme: dark) {\n      .low-risk { background-color: #1b5e20; color: #a5d6a7; }\n      .medium-risk { background-color: #f57f17; color: #212121; }\n      .high-risk { background-color: #b71c1c; color: #ef9a9a; }\n      .not-evaluated { background-color: #f57f17; color: #212121; }\n      .na { color: #8b949e; }\n    }\n  </style>\n</head>\n<body>\n  <div class=\"header\">\n    <div class=\"header-content\">\n      <h1>Crate Metrics</h1>\n");
    push_str(out, "      <p class=\"subtitle\">Produced by cargo-aprz 0.1.0 on ");
    push_str(out, date_text);
    push_str(out, "</p>\n");
    push_str(out, "    </div>\n    <svg class=\"ferris\" viewBox=\"0 0 1200 800\" xmlns=\"http://www.w3.org/2000/svg\" style=\"fill-rule:evenodd;clip-rule:evenodd;stroke-linejoin:round;stroke-miterlimit:1.41421;\">\n      <g>\n        <g transform=\"matrix(1,0,0,1,654.172,668.359)\">\n          <path d=\"M0,-322.648C-114.597,-322.648 -218.172,-308.869 -296.172,-286.419L-296.172,-291.49C-374.172,-266.395 -423.853,-231.531 -423.853,-192.984C-423.853,-186.907 -422.508,-180.922 -420.15,-175.053L-428.134,-160.732C-428.134,-160.732 -434.547,-152.373 -423.199,-134.733C-413.189,-119.179 -363.035,-58.295 -336.571,-26.413C-325.204,-10.065 -317.488,0 -316.814,-0.973C-315.753,-2.516 -323.878,-33.202 -346.453,-68.215C-356.986,-87.02 -369.811,-111.934 -377.361,-130.335C-356.28,-116.993 -328.172,-104.89 -296.172,-94.474L-296.172,-94.633C-218.172,-72.18 -114.597,-58.404 0,-58.404C131.156,-58.404 248.828,-76.45 327.828,-104.895L327.828,-276.153C248.828,-304.6 131.156,-322.648 0,-322.648\" style=\"fill:rgb(165,43,0);fill-rule:nonzero;\"/>\n        </g>\n        <g transform=\"matrix(1,0,0,1,1099.87,554.94)\">\n          <path d=\"M0,-50.399L-13.433,-78.227C-13.362,-79.283 -13.309,-80.341 -13.309,-81.402C-13.309,-112.95 -46.114,-142.022 -101.306,-165.303L-101.306,2.499C-75.555,-8.365 -54.661,-20.485 -39.72,-33.538C-44.118,-15.855 -59.157,19.917 -71.148,45.073C-90.855,81.054 -97.993,112.376 -97.077,113.926C-96.493,114.904 -89.77,104.533 -79.855,87.726C-56.783,54.85 -13.063,-7.914 -4.325,-23.901C5.574,-42.024 0,-50.399 0,-50.399\" style=\"fill:rgb(165,43,0);fill-rule:nonzero;\"/>\n        </g>\n        <g transform=\"matrix(1,0,0,1,1177.87,277.21)\">\n          <path d=\"M0,227.175L-88.296,162.132C-89.126,159.237 -89.956,156.345 -90.812,153.474L-61.81,111.458C-58.849,107.184 -58.252,101.629 -60.175,96.755C-62.1,91.905 -66.311,88.428 -71.292,87.576L-120.335,79.255C-122.233,75.376 -124.225,71.557 -126.224,67.771L-105.62,20.599C-103.501,15.793 -103.947,10.209 -106.759,5.848C-109.556,1.465 -114.31,-1.094 -119.376,-0.895L-169.146,0.914C-171.723,-2.442 -174.34,-5.766 -177.012,-9.032L-165.574,-59.592C-164.415,-64.724 -165.876,-70.1 -169.453,-73.83C-173.008,-77.546 -178.175,-79.084 -183.089,-77.88L-231.567,-65.961C-234.707,-68.736 -237.897,-71.474 -241.126,-74.157L-239.381,-126.064C-239.193,-131.318 -241.643,-136.311 -245.849,-139.227C-250.053,-142.161 -255.389,-142.603 -259.987,-140.423L-305.213,-118.921C-308.853,-121.011 -312.515,-123.081 -316.218,-125.084L-324.209,-176.232C-325.021,-181.413 -328.355,-185.816 -333.024,-187.826C-337.679,-189.848 -343.014,-189.193 -347.101,-186.116L-387.422,-155.863C-391.392,-157.181 -395.38,-158.446 -399.418,-159.655L-416.798,-208.159C-418.564,-213.104 -422.64,-216.735 -427.608,-217.756C-432.561,-218.768 -437.656,-217.053 -441.091,-213.217L-475.029,-175.246C-479.133,-175.717 -483.239,-176.147 -487.356,-176.505L-513.564,-220.659C-516.22,-225.131 -520.908,-227.852 -525.961,-227.852C-531.002,-227.852 -535.7,-225.131 -538.333,-220.659L-564.547,-176.505C-568.666,-176.147 -572.791,-175.717 -576.888,-175.246L-610.831,-213.217C-614.268,-217.053 -619.382,-218.768 -624.318,-217.756C-629.284,-216.721 -633.363,-213.104 -635.124,-208.159L-652.517,-159.655C-656.544,-158.446 -660.534,-157.173 -664.514,-155.863L-704.822,-186.116C-708.92,-189.204 -714.254,-189.857 -718.92,-187.826C-723.57,-185.816 -726.917,-181.413 -727.723,-176.232L-735.72,-125.084C-739.42,-123.081 -743.083,-121.022 -746.734,-118.921L-791.956,-140.423C-796.548,-142.612 -801.908,-142.161 -806.091,-139.227C-810.292,-136.311 -812.747,-131.318 -812.557,-126.064L-810.821,-74.157C-814.04,-71.474 -817.224,-68.736 -820.379,-65.961L-868.849,-77.88C-873.774,-79.075 -878.935,-77.546 -882.499,-73.83C-886.084,-70.1 -887.538,-64.724 -886.384,-59.592L-874.969,-9.032C-877.618,-5.753 -880.239,-2.442 -882.808,0.914L-932.579,-0.895C-937.602,-1.043 -942.396,1.465 -945.202,5.848C-948.014,10.209 -948.439,15.793 -946.348,20.599L-925.729,67.771C-927.732,71.557 -929.721,75.376 -931.635,79.255L-980.675,87.576C-985.657,88.417 -989.858,91.892 -991.795,96.755C-993.72,101.629 -993.095,107.184 -990.156,111.458L-961.146,153.474C-961.37,154.215 -961.576,154.964 -961.799,155.707L-1043.82,242.829C-1043.82,242.829 -1056.38,252.68 -1038.09,275.831C-1021.95,296.252 -939.097,377.207 -895.338,419.62C-876.855,441.152 -864.195,454.486 -862.872,453.332C-860.784,451.5 -871.743,412.326 -908.147,366.362C-936.207,325.123 -972.625,261.696 -964.086,254.385C-964.086,254.385 -954.372,242.054 -934.882,233.178C-934.169,233.749 -935.619,232.613 -934.882,233.178C-934.882,233.178 -523.568,422.914 -142.036,236.388C-98.452,228.571 -72.068,251.917 -72.068,251.917C-62.969,257.193 -86.531,322.412 -105.906,365.583C-132.259,414.606 -136.123,452.859 -133.888,454.185C-132.479,455.027 -122.89,440.438 -109.214,417.219C-75.469,370.196 -11.675,280.554 0,258.781C13.239,234.094 0,227.175 0,227.175\" style=\"fill:rgb(247,76,0);fill-rule:nonzero;\"/>\n        </g>\n        <g transform=\"matrix(1,0,0,1,795.856,464.937)\">\n          <path d=\"M0,159.631C1.575,158.289 2.4,157.492 2.4,157.492L-132.25,144.985C-22.348,0 65.618,116.967 74.988,129.879L74.988,159.631L0,159.631Z\" style=\"fill-rule:nonzero;\"/>\n        </g>\n        <g transform=\"matrix(1,0,0,1,278.418,211.791)\">\n          <path d=\"M0,253.04C0,253.04 -111.096,209.79 -129.876,163.242C-129.876,163.242 0.515,59.525 -155.497,-50.644L-159.726,89.773C-159.726,89.773 -205.952,45.179 -203.912,-32.91C-203.912,-32.91 -347.685,36.268 -179.436,158.667C-179.436,158.667 -173.76,224.365 -22.459,303.684L0,253.04Z\" style=\"fill:rgb(247,76,0);fill-rule:nonzero;\"/>\n        </g>\n        <g transform=\"matrix(1,0,0,1,729.948,492.523)\">\n          <path d=\"M0,-87.016C0,-87.016 41.104,-132.025 82.21,-87.016C82.21,-87.016 114.507,-27.003 82.21,3C82.21,3 29.36,45.009 0,3C0,3 -35.232,-30.006 0,-87.016\" style=\"fill-rule:nonzero;\"/>\n        </g>\n        <g transform=\"matrix(1,0,0,1,777.536,422.196)\">\n          <path d=\"M0,0.008C0,17.531 -10.329,31.738 -23.07,31.738C-35.809,31.738 -46.139,17.531 -46.139,0.008C-46.139,-17.521 -35.809,-31.73 -23.07,-31.73C-10.329,-31.73 0,-17.521 0,0.008\" style=\"fill:white;fill-rule:nonzero;\"/>\n        </g>\n        <g transform=\"matrix(1,0,0,1,546.49,486.263)\">\n          <path d=\"M0,-93.046C0,-93.046 70.508,-124.265 89.753,-54.583C89.753,-54.583 109.912,26.635 31.851,31.219C31.851,31.219 -67.69,12.047 0,-93.046\" style=\"fill-rule:nonzero;\"/>\n        </g>\n        <g transform=\"matrix(1,0,0,1,581.903,423.351)\">\n          <path d=\"M0,0.002C0,18.074 -10.653,32.731 -23.794,32.731C-36.931,32.731 -47.586,18.074 -47.586,0.002C-47.586,-18.076 -36.931,-32.729 -23.794,-32.729C-10.653,-32.729 0,-18.076 0,0.002\" style=\"fill:white;fill-rule:nonzero;\"/>\n        </g>\n        <g transform=\"matrix(1,0,0,1,1002.23,778.679)\">\n          <path d=\"M0,-296.808C0,-296.808 -14.723,-238.165 -106.292,-176.541L-131.97,-170.523C-131.97,-170.523 -215.036,-322.004 -332.719,-151.302C-332.719,-151.302 -296.042,-172.656 -197.719,-146.652C-197.719,-146.652 -242.949,-77.426 -334.061,-79.553C-334.061,-79.553 -246.748,25.196 -113.881,-126.107C-113.881,-126.107 26.574,-180.422 37.964,-296.808L0,-296.808Z\" style=\"fill:rgb(247,76,0);fill-rule:nonzero;\"/>\n        </g>\n      </g>\n    </svg>\n    <button class=\"theme-toggle\" onclick=\"toggleTheme()\" aria-label=\"Toggle theme\">\n      <svg id=\"theme-icon\" viewBox=\"0 0 24 24\"><path d=\"M21 12.79A9 9 0 1 1 11.21 3 7 7 0 0 0 21 12.79z\"/></svg>\n    </button>\n  </div>\n");
    push_str(out, "  <div class=\"table-wrapper\">\n    <div class=\"table-container\">\n      <table>\n        <tbody>\n");
    let ghost opened = out@;
    if has_evaluation(crates) {
        push_evaluation_rows(out, crates);
    }
    let ghost evaluated = out@;
    let mut slices: Vec<&[Metric]> = Vec::new();
    let mut i: usize = 0;
    while i < crates.len()
        invariant
            i <= crates@.len(),
            slices@.len() == i,
            forall|j: int| 0 <= j < i ==> (#[trigger] slices@[j])@ == crates@[j].metrics@,
        decreases crates@.len() - i,
    {
        slices.push(crates[i].metrics.as_slice());
        i = i + 1;
    }
    assert(slices@.map_values(|m: &[Metric]| m@) =~= crate_metrics(crates@));
    let groups = group_all_metrics_by_category(slices.as_slice());
    let cats = MetricCategory::all();
    let ghost rows = Seq::new(9, |k: int| html_category(crates@, k));
    let mut seen = false;
    let mut m: usize = 0;
    while m < 9
        invariant
            m <= 9,
            groups.wf(),
            forall|c: MetricCategory| #[trigger] groups.group(c) == (if html_names(crates@, c).len() > 0 {
                Some(html_names(crates@, c))
            } else {
                None
            }),
            cats@.len() == 9,
            forall|k: int| 0 <= k < 9 ==> #[trigger] cats@[k] == category_at(k),
            rows == Seq::new(9, |k: int| html_category(crates@, k)),
            seen == present_before(crates@, m as int),
            out@ == evaluated + concat(rows.take(m as int)),
        decreases 9 - m,
    {
        proof { lemma_concat_take(rows, m as int); }
        let cat = cats[m];
        match groups.get(cat) {
            Some(names) => {
                push_category(out, crates, m, cat, names, seen);
                seen = true;
            },
            None => {},
        }
        m = m + 1;
    }
    assert(rows.take(9) =~= rows);
    push_str(out, "        </tbody>\n      </table>\n    </div>\n  </div>\n  <script>\n    function getSystemTheme() {\n      return window.matchMedia('(prefers-color-scheme: dark)').matches ? 'dark' : 'light';\n    }\n    function updateIcon(theme) {\n      const icon = document.getElementById('theme-icon');\n      if (theme === 'dark') {\n        icon.innerHTML = '<circle cx=\"12\" cy=\"12\" r=\"4\" fill=\"currentColor\"/><path d=\"M12 1v2m0 18v2M4.22 4.22l1.42 1.42m12.72 12.72l1.42 1.42M1 12h2m18 0h2M4.22 19.78l1.42-1.42m12.72-12.72l1.42-1.42\" stroke=\"currentColor\" stroke-width=\"2\" stroke-linecap=\"round\"/>';\n      } else {\n        icon.innerHTML = '<path d=\"M21 12.79A9 9 0 1 1 11.21 3 7 7 0 0 0 21 12.79z\"/>';\n      }\n    }\n    function applyTheme(theme) {\n      document.body.classList.remove('dark-theme', 'light-theme');\n      document.body.classList.add(theme + '-theme');\n      updateIcon(theme);\n    }\n    function toggleTheme() {\n      const currentTheme = localStorage.getItem('theme') || getSystemTheme();\n      const newTheme = currentTheme === 'dark' ? 'light' : 'dark';\n      localStorage.setItem('theme', newTheme);\n      applyTheme(newTheme);\n    }\n    const savedTheme = localStorage.getItem('theme');\n    applyTheme(savedTheme || getSystemTheme());\n  </script>\n</body>\n</html>\n");
    assert(out@ =~= start + html_document(crates@, date_text@));
}

} // verus!
